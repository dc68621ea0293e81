//! Trust on first use.
//!
//! TLS runs *under* the message protocol: its handshake completes, and the server fingerprint is
//! checked, before any message flows. There is no CA chain: the server presents a self-signed
//! certificate, and the client pins its SHA-256 fingerprint on first sight and rejects any later
//! change.

use crate::name_map::NameMap;
use crate::text;
use crate::text::{chars_of, is_white_space, push_hex, same_text, text_of, trim};
use rustls::crypto::ring::default_provider;
use rustls::pki_types::{CertificateDer, PrivateKeyDer, PrivatePkcs8KeyDer};
use sha2::{Digest, Sha256};
use std::sync::Arc;
use tokio_rustls::TlsAcceptor;
use vstd::prelude::*;

verus! {

#[derive(Debug, PartialEq, Eq)]
pub enum TlsError {
    /// The certificate could not be generated.
    Cert(String),
    /// The TLS configuration was refused.
    Config(String),
}

/// The SHA-256 digest of some bytes.
pub uninterp spec fn sha256(data: Seq<u8>) -> Seq<u8>;

/// `sha2::Sha256::digest`: the digest of the bytes, which depends on nothing else and is 32 bytes
/// long.
#[verifier::external_body]
fn digest_of(data: &[u8]) -> (digest: Vec<u8>)
    ensures
        digest@ == sha256(data@),
        digest@.len() == 32,
{
    Sha256::digest(data).to_vec()
}

/// The bytes in hexadecimal, joined by colons.
pub open spec fn hex_joined(bytes: Seq<u8>) -> Seq<char>
    decreases bytes.len(),
{
    if bytes.len() == 0 {
        Seq::empty()
    } else if bytes.len() == 1 {
        text::hex(bytes[0])
    } else {
        hex_joined(bytes.drop_last()).push(':') + text::hex(bytes.last())
    }
}

/// The `SHA256:aa:bb:..` text of a digest.
pub open spec fn fingerprint_text(digest: Seq<u8>) -> Seq<char> {
    "SHA256:"@ + hex_joined(digest)
}

/// The `SHA256:aa:bb:..` text of a digest.
pub fn format_fingerprint(digest: &[u8]) -> (fp: String)
    ensures
        fp@ == fingerprint_text(digest@),
{
    let mut fp: String = "SHA256:".to_string();
    let mut i: usize = 0;
    while i < digest.len()
        invariant
            i <= digest@.len(),
            fp@ == "SHA256:"@ + hex_joined(digest@.take(i as int)),
        decreases digest@.len() - i,
    {
        let ghost before = digest@.take(i as int);
        assert(digest@.take(i + 1).drop_last() =~= before);
        if i > 0 {
            fp.push(':');
        }
        push_hex(&mut fp, digest[i]);
        i = i + 1;
        assert(fp@ =~= "SHA256:"@ + hex_joined(digest@.take(i as int)));
    }
    assert(digest@.take(i as int) =~= digest@);
    fp
}

/// Compute the `SHA256:aa:bb:..` fingerprint of a DER certificate.
pub fn fingerprint(cert: &[u8]) -> (fp: String)
    ensures
        fp@ == fingerprint_text(sha256(cert@)),
{
    format_fingerprint(digest_of(cert).as_slice())
}

/// The server side of TLS.
#[verifier::external_type_specification]
#[verifier::external_body]
pub struct ExTlsAcceptor(tokio_rustls::TlsAcceptor);

/// Whether a certificate and a private key make up the identity of a TLS server.
pub uninterp spec fn servable(cert: Seq<u8>, key: Seq<u8>) -> bool;

/// The certificate and the private key that an acceptor presents to its peers.
pub uninterp spec fn identity_of(acceptor: TlsAcceptor) -> (Seq<u8>, Seq<u8>);

/// `rustls::server::ServerConfig` for a single certificate, with the `ring` provider, the default
/// protocol versions and no client authentication, in a `tokio_rustls::TlsAcceptor`. An acceptor
/// that is had presents the certificate and the key that it was made from, and these two are an
/// identity. When there is one is left unsaid: the key is parsed and held against the certificate,
/// and the loading of some kinds of key draws on the system's randomness. What the acceptor does
/// with connections, and the wording of an error, are left unsaid too.
#[verifier::external_body]
fn acceptor_for(cert: Vec<u8>, key: Vec<u8>) -> (r: Result<TlsAcceptor, String>)
    ensures
        r matches Ok(acceptor) ==> servable(cert@, key@) && identity_of(acceptor) == (cert@, key@),
{
    rustls::ServerConfig::builder_with_provider(Arc::new(default_provider()))
        .with_safe_default_protocol_versions()
        .and_then(|builder| {
            builder.with_no_client_auth().with_single_cert(
                vec![CertificateDer::from(cert)],
                PrivateKeyDer::Pkcs8(PrivatePkcs8KeyDer::from(key)),
            )
        })
        .map(|config| TlsAcceptor::from(Arc::new(config)))
        .map_err(|e| e.to_string())
}

/// Whether `cert` is a certificate for `name` that is signed with the private key `key` and holds
/// its public key, all in DER.
pub uninterp spec fn self_signed_for(cert: Seq<u8>, key: Seq<u8>, name: Seq<char>) -> bool;

/// `rcgen::generate_simple_self_signed`: a new key pair and a certificate for `name` signed with
/// it, both in DER. The key is drawn at random, so nothing more is said of the two, nor when there
/// are none.
#[verifier::external_body]
fn self_signed(name: &str) -> (made: Result<(Vec<u8>, Vec<u8>), String>)
    ensures
        made matches Ok((cert, key)) ==> self_signed_for(cert@, key@, name@),
{
    match rcgen::generate_simple_self_signed(vec![name.to_string()]) {
        Ok(made) => Ok((made.cert.der().to_vec(), made.key_pair.serialize_der())),
        Err(e) => Err(e.to_string()),
    }
}

/// Build a TLS acceptor from a certificate and its private key, or from what was said when none
/// could be made. Returns the acceptor and the certificate's fingerprint.
pub fn acceptor_from(made: Result<(Vec<u8>, Vec<u8>), String>) -> (r: Result<
    (TlsAcceptor, String),
    TlsError,
>)
    ensures
        match made {
            Ok((cert, key)) => match r {
                Ok((acceptor, fp)) => {
                    &&& servable(cert@, key@)
                    &&& identity_of(acceptor) == (cert@, key@)
                    &&& fp@ == fingerprint_text(sha256(cert@))
                },
                Err(e) => e is Config,
            },
            Err(reason) => r matches Err(TlsError::Cert(e)) && e == reason,
        },
{
    match made {
        Ok((cert, key)) => {
            let fp = fingerprint(cert.as_slice());
            match acceptor_for(cert, key) {
                Ok(acceptor) => Ok((acceptor, fp)),
                Err(e) => Err(TlsError::Config(e)),
            }
        },
        Err(e) => Err(TlsError::Cert(e)),
    }
}

/// Build a TLS acceptor from a freshly generated self-signed certificate. Returns the acceptor and
/// the certificate's fingerprint (to display and share).
pub fn server_acceptor() -> (r: Result<(TlsAcceptor, String), TlsError>)
    ensures
        match r {
            Ok((acceptor, fp)) => {
                let (cert, key) = identity_of(acceptor);
                &&& servable(cert, key)
                &&& self_signed_for(cert, key, "self-kvm"@)
                &&& fp@ == fingerprint_text(sha256(cert))
            },
            Err(e) => e is Cert || e is Config,
        },
{
    acceptor_from(self_signed("self-kvm"))
}

/// Identities and the fingerprints that they are pinned to.
pub type Pins = Map<Seq<char>, Seq<char>>;

/// What is said of a fingerprint that is not the pinned one.
pub open spec fn change_text(identity: Seq<char>, known: Seq<char>, got: Seq<char>) -> Seq<char> {
    "fingerprint changed for "@ + identity + ": trusted "@ + known + ", got "@ + got
}

/// Whether `r` and `after` are what checking a fingerprint against some pins gives: an unknown
/// identity is pinned and accepted, a known one accepted with the fingerprint that it is pinned to
/// and rejected with any other, and neither changes a pin.
pub open spec fn checked(
    pins: Pins,
    identity: Seq<char>,
    fingerprint: Seq<char>,
    r: Result<(), String>,
    after: Pins,
) -> bool {
    if !pins.contains_key(identity) {
        r is Ok && after == pins.insert(identity, fingerprint)
    } else if pins[identity] == fingerprint {
        r is Ok && after == pins
    } else {
        &&& r matches Err(reason) && reason@ == change_text(identity, pins[identity], fingerprint)
        &&& after == pins
    }
}

/// Decides whether a presented server fingerprint is trusted, recording it on first sight.
pub trait TrustStore {
    /// The pins that the store holds.
    spec fn pins(&self) -> Pins;

    /// `Ok(())` to accept; `Err(reason)` to reject.
    fn check(&mut self, identity: &str, fingerprint: &str) -> (r: Result<(), String>)
        ensures
            checked(old(self).pins(), identity@, fingerprint@, r, final(self).pins()),
    ;
}

/// Check a server's DER certificate against a store, by its fingerprint.
pub fn check_certificate<S: TrustStore>(store: &mut S, identity: &str, cert: &[u8]) -> (r: Result<
    (),
    String,
>)
    ensures
        checked(
            old(store).pins(),
            identity@,
            fingerprint_text(sha256(cert@)),
            r,
            final(store).pins(),
        ),
{
    let fp = fingerprint(cert);
    store.check(identity, fp.as_str())
}

/// The pins in a map.
spec fn pins_in(map: NameMap<String>) -> Pins {
    map@.map_values(|fp: String| fp@)
}

fn check_in(map: &mut NameMap<String>, identity: &str, fingerprint: &str) -> (r: (
    Result<(), String>,
    bool,
))
    ensures
        checked(pins_in(*old(map)), identity@, fingerprint@, r.0, pins_in(*final(map))),
        r.1 == !old(map)@.contains_key(identity@),
{
    match map.get(identity) {
        Some(known) => {
            if same_text(known.as_str(), fingerprint) {
                (Ok(()), false)
            } else {
                let mut reason: String = "fingerprint changed for ".to_string();
                reason.append(identity);
                reason.append(": trusted ");
                reason.append(known.as_str());
                reason.append(", got ");
                reason.append(fingerprint);
                (Err(reason), false)
            }
        },
        None => {
            map.insert(identity.to_string(), fingerprint.to_string());
            assert(pins_in(*map) =~= pins_in(*old(map)).insert(identity@, fingerprint@));
            (Ok(()), true)
        },
    }
}

/// In-memory store (for ephemeral runs).
#[derive(Debug)]
pub struct MemoryTrustStore {
    map: NameMap<String>,
}

impl Default for MemoryTrustStore {
    fn default() -> (s: Self)
        ensures
            s.pins() == Map::<Seq<char>, Seq<char>>::empty(),
    {
        let s = MemoryTrustStore { map: NameMap::new() };
        assert(s.pins() =~= Map::<Seq<char>, Seq<char>>::empty());
        s
    }
}

impl MemoryTrustStore {
    pub fn new() -> (s: Self)
        ensures
            s.pins() == Map::<Seq<char>, Seq<char>>::empty(),
    {
        Self::default()
    }

    /// Pre-seed a trusted fingerprint.
    pub fn insert(&mut self, identity: &str, fingerprint: &str)
        ensures
            final(self).pins() == old(self).pins().insert(identity@, fingerprint@),
    {
        self.map.insert(identity.to_string(), fingerprint.to_string());
        assert(self.pins() =~= old(self).pins().insert(identity@, fingerprint@));
    }

    pub fn get(&self, identity: &str) -> (fingerprint: Option<String>)
        ensures
            match fingerprint {
                Some(fp) => self.pins().contains_key(identity@) && self.pins()[identity@] == fp@,
                None => !self.pins().contains_key(identity@),
            },
    {
        match self.map.get(identity) {
            Some(fp) => Some(fp.clone()),
            None => None,
        }
    }
}

impl TrustStore for MemoryTrustStore {
    closed spec fn pins(&self) -> Pins {
        pins_in(self.map)
    }

    fn check(&mut self, identity: &str, fingerprint: &str) -> (r: Result<(), String>) {
        check_in(&mut self.map, identity, fingerprint).0
    }
}

/// Whether a character ends a line.
pub open spec fn line_feed() -> spec_fn(char) -> bool {
    |c: char| c == '\n'
}

/// Whether a character is white space.
pub open spec fn blank() -> spec_fn(char) -> bool {
    |c: char| text::white_space(c)
}

/// A line without the carriage return before its line feed.
pub open spec fn without_return(line: Seq<char>) -> Seq<char> {
    if line.len() > 0 && line.last() == '\r' {
        line.drop_last()
    } else {
        line
    }
}

/// The pins with the one that a line states: what stands before the first white space is the
/// identity, what stands behind it the fingerprint. A line without white space states none.
pub open spec fn with_line(pins: Pins, line: Seq<char>) -> Pins {
    let n = text::run_length(line, blank());
    if n < line.len() {
        pins.insert(line.take(n as int), text::trimmed(line.skip(n as int + 1)))
    } else {
        pins
    }
}

/// The pins once those that the lines of a text state have been added in order.
pub open spec fn with_lines(pins: Pins, body: Seq<char>) -> Pins
    decreases body.len(),
{
    if body.len() == 0 {
        pins
    } else {
        let n = text::run_length(body, line_feed());
        if n < body.len() {
            with_lines(
                with_line(pins, without_return(body.take(n as int))),
                body.skip(n as int + 1),
            )
        } else {
            with_line(pins, body)
        }
    }
}

/// The line that states a pin.
pub open spec fn pin_line(identity: Seq<char>, fingerprint: Seq<char>) -> Seq<char> {
    identity.push(' ') + fingerprint.push('\n')
}

/// The text that states the pins of some identities, a line each.
pub open spec fn pin_lines(identities: Seq<Seq<char>>, pins: Pins) -> Seq<char>
    decreases identities.len(),
{
    if identities.len() == 0 {
        Seq::empty()
    } else {
        pin_lines(identities.drop_last(), pins) + pin_line(
            identities.last(),
            pins[identities.last()],
        )
    }
}

/// Whether a store has to be written after a check, by whether it had to be before.
pub open spec fn needs_saving(unsaved: bool, pins: Pins, identity: Seq<char>) -> bool {
    unsaved || !pins.contains_key(identity)
}

/// A store that is kept in a text, one `identity fingerprint` pair per line.
#[derive(Debug)]
pub struct FileTrustStore {
    mem: NameMap<String>,
    unsaved: bool,
}

impl FileTrustStore {
    /// The identities in the order in which they were pinned.
    pub closed spec fn identities(self) -> Seq<Seq<char>> {
        self.mem.names()
    }

    /// Whether a pin has been recorded that the text does not hold yet.
    pub closed spec fn has_unsaved(self) -> bool {
        self.unsaved
    }

    /// Load trusted fingerprints from the text of the store. Without a text the store is empty.
    pub fn load(body: Option<&str>) -> (s: Self)
        ensures
            s.pins() == match body {
                Some(b) => with_lines(Map::empty(), b@),
                None => Map::empty(),
            },
            !s.has_unsaved(),
    {
        let mut mem: NameMap<String> = NameMap::new();
        assert(pins_in(mem) =~= Map::<Seq<char>, Seq<char>>::empty());
        match body {
            Some(b) => {
                let chars = chars_of(b);
                load_lines(&mut mem, chars.as_slice());
            },
            None => {},
        }
        FileTrustStore { mem, unsaved: false }
    }

    /// The text of the store, if it has to be written: a pin has been recorded since it was last
    /// loaded or taken.
    pub fn take_unsaved(&mut self) -> (body: Option<String>)
        ensures
            final(self).pins() == old(self).pins(),
            final(self).identities() == old(self).identities(),
            !final(self).has_unsaved(),
            match body {
                Some(b) => old(self).has_unsaved() && b@ == pin_lines(
                    old(self).identities(),
                    old(self).pins(),
                ),
                None => !old(self).has_unsaved(),
            },
    {
        if !self.unsaved {
            return None;
        }
        self.unsaved = false;
        let mut body = String::new();
        let count = self.mem.len();
        let mut i: usize = 0;
        while i < count
            invariant
                count == self.mem.names().len(),
                i <= count,
                body@ == pin_lines(self.mem.names().take(i as int), pins_in(self.mem)),
            decreases count - i,
        {
            assert(self.mem.names().take(i + 1).drop_last() =~= self.mem.names().take(i as int));
            body.append(self.mem.name_at(i).as_str());
            body.append(" ");
            body.append(self.mem.value_at(i).as_str());
            body.append("\n");
            i = i + 1;
            proof {
                reveal_strlit(" ");
                reveal_strlit("\n");
                assert(" "@ =~= seq![' ']);
                assert("\n"@ =~= seq!['\n']);
                assert(body@ =~= pin_lines(
                    self.mem.names().take(i as int),
                    pins_in(self.mem),
                ));
            }
        }
        assert(self.mem.names().take(i as int) =~= self.mem.names());
        Some(body)
    }
}

impl TrustStore for FileTrustStore {
    closed spec fn pins(&self) -> Pins {
        pins_in(self.mem)
    }

    /// A first sight is recorded and waits to be written.
    fn check(&mut self, identity: &str, fingerprint: &str) -> (r: Result<(), String>)
        ensures
            final(self).has_unsaved() == needs_saving(
                old(self).has_unsaved(),
                old(self).pins(),
                identity@,
            ),
    {
        let (r, recorded) = check_in(&mut self.mem, identity, fingerprint);
        if recorded {
            self.unsaved = true;
        }
        r
    }
}

fn load_line(map: &mut NameMap<String>, line: &[char])
    ensures
        pins_in(*final(map)) == with_line(pins_in(*old(map)), line@),
{
    let mut n: usize = 0;
    while n < line.len() && !is_white_space(line[n])
        invariant
            n <= line@.len(),
            forall|i: int| 0 <= i < n ==> !text::white_space(#[trigger] line@[i]),
        decreases line@.len() - n,
    {
        n = n + 1;
    }
    proof {
        text::lemma_run_length(line@, blank(), n as nat);
    }
    if n < line.len() {
        let identity = vstd::slice::slice_subrange(line, 0, n);
        let rest = vstd::slice::slice_subrange(line, n + 1, line.len());
        let fingerprint = trim(rest);
        assert(identity@ =~= line@.take(n as int));
        assert(rest@ =~= line@.skip(n + 1));
        map.insert(text_of(identity), text_of(fingerprint));
        assert(pins_in(*map) =~= with_line(pins_in(*old(map)), line@));
    }
}

fn load_lines(map: &mut NameMap<String>, body: &[char])
    ensures
        pins_in(*final(map)) == with_lines(pins_in(*old(map)), body@),
{
    let mut at: usize = 0;
    assert(body@.skip(0) =~= body@);
    while at < body.len()
        invariant
            at <= body@.len(),
            with_lines(pins_in(*old(map)), body@) == with_lines(
                pins_in(*map),
                body@.skip(at as int),
            ),
        decreases body@.len() - at,
    {
        let ghost rest = body@.skip(at as int);
        let mut end: usize = at;
        while end < body.len() && body[end] != '\n'
            invariant
                at <= end <= body@.len(),
                rest == body@.skip(at as int),
                forall|i: int| 0 <= i < end - at ==> #[trigger] rest[i] != '\n',
            decreases body@.len() - end,
        {
            end = end + 1;
        }
        proof {
            text::lemma_run_length(rest, line_feed(), (end - at) as nat);
        }
        if end < body.len() {
            let mut stop: usize = end;
            if stop > at && body[stop - 1] == '\r' {
                stop = stop - 1;
            }
            let line = vstd::slice::slice_subrange(body, at, stop);
            assert(line@ =~= without_return(rest.take(end - at)));
            load_line(map, line);
            assert(rest.skip(end - at + 1) =~= body@.skip(end + 1));
            at = end + 1;
        } else {
            let line = vstd::slice::slice_subrange(body, at, end);
            assert(line@ =~= rest);
            load_line(map, line);
            at = end;
            assert(body@.skip(at as int) =~= Seq::<char>::empty());
        }
    }
    assert(body@.skip(at as int) =~= Seq::<char>::empty());
}

proof fn lemma_hex_is_injective(a: u8, b: u8)
    requires
        text::hex(a) == text::hex(b),
    ensures
        a == b,
{
    assert(text::hex(a)[0] == text::hex(b)[0]);
    assert(text::hex(a)[1] == text::hex(b)[1]);
}

proof fn lemma_hex_joined_len(bytes: Seq<u8>)
    ensures
        bytes.len() > 0 ==> hex_joined(bytes).len() == 3 * bytes.len() - 1,
    decreases bytes.len(),
{
    if bytes.len() > 1 {
        lemma_hex_joined_len(bytes.drop_last());
    }
}

proof fn lemma_hex_joined_is_injective(a: Seq<u8>, b: Seq<u8>)
    requires
        hex_joined(a) == hex_joined(b),
    ensures
        a == b,
    decreases a.len(),
{
    lemma_hex_joined_len(a);
    lemma_hex_joined_len(b);
    assert(a.len() == b.len());
    if a.len() == 0 {
        assert(a =~= b);
    } else {
        let n = hex_joined(a).len() as int;
        assert(hex_joined(a).skip(n - 2) =~= text::hex(a.last()));
        assert(hex_joined(b).skip(n - 2) =~= text::hex(b.last()));
        lemma_hex_is_injective(a.last(), b.last());
        if a.len() > 1 {
            assert(hex_joined(a).take(n - 3) =~= hex_joined(a.drop_last()));
            assert(hex_joined(b).take(n - 3) =~= hex_joined(b.drop_last()));
            lemma_hex_joined_is_injective(a.drop_last(), b.drop_last());
            assert(a =~= a.drop_last().push(a.last()));
            assert(b =~= b.drop_last().push(b.last()));
        } else {
            assert(a =~= b);
        }
    }
}

/// Two digests have the same fingerprint only if they are the same.
pub proof fn lemma_fingerprint_tells_digests_apart(a: Seq<u8>, b: Seq<u8>)
    requires
        fingerprint_text(a) == fingerprint_text(b),
    ensures
        a == b,
{
    let head = "SHA256:"@;
    assert(fingerprint_text(a).skip(head.len() as int) =~= hex_joined(a));
    assert(fingerprint_text(b).skip(head.len() as int) =~= hex_joined(b));
    lemma_hex_joined_is_injective(a, b);
}

/// The pins once a fingerprint has been checked against them.
pub open spec fn after_check(pins: Pins, identity: Seq<char>, fingerprint: Seq<char>) -> Pins {
    if pins.contains_key(identity) {
        pins
    } else {
        pins.insert(identity, fingerprint)
    }
}

/// The pins once some fingerprints have been checked against them, each under its identity.
pub open spec fn after_checks(pins: Pins, checks: Seq<(Seq<char>, Seq<char>)>) -> Pins
    decreases checks.len(),
{
    if checks.len() == 0 {
        pins
    } else {
        after_check(after_checks(pins, checks.drop_last()), checks.last().0, checks.last().1)
    }
}

/// A pin is never changed or lost, whatever is checked.
pub proof fn lemma_pins_are_kept(
    pins: Pins,
    checks: Seq<(Seq<char>, Seq<char>)>,
    pinned: Seq<char>,
)
    requires
        pins.contains_key(pinned),
    ensures
        after_checks(pins, checks).contains_key(pinned),
        after_checks(pins, checks)[pinned] == pins[pinned],
    decreases checks.len(),
{
    if checks.len() > 0 {
        lemma_pins_are_kept(pins, checks.drop_last(), pinned);
    }
}

/// Trust on first use: once a fingerprint has been accepted for an identity, and whatever has been
/// checked since, that identity is accepted with exactly that fingerprint.
pub proof fn lemma_first_use_decides(
    pins: Pins,
    identity: Seq<char>,
    first: Seq<char>,
    first_result: Result<(), String>,
    between: Pins,
    checks: Seq<(Seq<char>, Seq<char>)>,
    later: Seq<char>,
    later_result: Result<(), String>,
    after: Pins,
)
    requires
        checked(pins, identity, first, first_result, between),
        first_result is Ok,
        checked(after_checks(between, checks), identity, later, later_result, after),
    ensures
        between == after_check(pins, identity, first),
        later_result is Ok <==> later == first,
        after == after_checks(between, checks),
{
    lemma_pins_are_kept(between, checks, identity);
}

/// Whether a text survives as the identity of a line: it holds no white space.
pub open spec fn storable_identity(identity: Seq<char>) -> bool {
    forall|i: int| 0 <= i < identity.len() ==> !text::white_space(#[trigger] identity[i])
}

/// Whether a text survives as the fingerprint of a line: it holds no line feed, and no white space
/// at either end.
pub open spec fn storable_fingerprint(fingerprint: Seq<char>) -> bool {
    &&& forall|i: int| 0 <= i < fingerprint.len() ==> #[trigger] fingerprint[i] != '\n'
    &&& text::trimmed(fingerprint) == fingerprint
}

proof fn lemma_trimmed_ends(chars: Seq<char>)
    requires
        text::trimmed(chars) == chars,
        chars.len() > 0,
    ensures
        !text::white_space(chars[0]),
        !text::white_space(chars.last()),
{
    lemma_trimmed_front_len(chars);
    lemma_trimmed_back_len(text::trimmed_front(chars));
}

proof fn lemma_trimmed_front_len(chars: Seq<char>)
    ensures
        text::trimmed_front(chars).len() <= chars.len(),
        chars.len() > 0 && text::white_space(chars[0]) ==> text::trimmed_front(chars).len()
            < chars.len(),
    decreases chars.len(),
{
    if chars.len() > 0 && text::white_space(chars[0]) {
        lemma_trimmed_front_len(chars.drop_first());
    }
}

proof fn lemma_trimmed_back_len(chars: Seq<char>)
    ensures
        text::trimmed_back(chars).len() <= chars.len(),
        chars.len() > 0 && text::white_space(chars.last()) ==> text::trimmed_back(chars).len()
            < chars.len(),
    decreases chars.len(),
{
    if chars.len() > 0 && text::white_space(chars.last()) {
        lemma_trimmed_back_len(chars.drop_last());
    }
}

proof fn lemma_pin_line_is_read_back(
    before: Pins,
    identity: Seq<char>,
    fingerprint: Seq<char>,
    rest: Seq<char>,
)
    requires
        storable_identity(identity),
        storable_fingerprint(fingerprint),
    ensures
        with_lines(before, pin_line(identity, fingerprint) + rest) == with_lines(
            before.insert(identity, fingerprint),
            rest,
        ),
{
    let line = identity.push(' ') + fingerprint;
    let body = pin_line(identity, fingerprint) + rest;
    let n = line.len();
    assert(body[n as int] == '\n');
    assert forall|i: int| 0 <= i < n implies !line_feed()(#[trigger] body[i]) by {
        if i < identity.len() {
            assert(!text::white_space(identity[i]));
        } else if i > identity.len() {
            assert(fingerprint[i - identity.len() - 1] != '\n');
        }
    }
    text::lemma_run_length(body, line_feed(), n);
    assert(body.take(n as int) =~= line);
    assert(body.skip(n as int + 1) =~= rest);
    assert(line.last() != '\r') by {
        if fingerprint.len() > 0 {
            lemma_trimmed_ends(fingerprint);
        }
    }
    assert forall|i: int| 0 <= i < identity.len() implies !blank()(#[trigger] line[i]) by {
        assert(!text::white_space(identity[i]));
    }
    text::lemma_run_length(line, blank(), identity.len());
    assert(line.take(identity.len() as int) =~= identity);
    assert(line.skip(identity.len() as int + 1) =~= fingerprint);
}

/// The pins with those of some identities put in, one after the other.
spec fn with_pins(before: Pins, identities: Seq<Seq<char>>, pins: Pins) -> Pins
    decreases identities.len(),
{
    if identities.len() == 0 {
        before
    } else {
        with_pins(
            before.insert(identities[0], pins[identities[0]]),
            identities.drop_first(),
            pins,
        )
    }
}

proof fn lemma_pin_lines_front(identities: Seq<Seq<char>>, pins: Pins)
    requires
        identities.len() > 0,
    ensures
        pin_lines(identities, pins) == pin_line(identities[0], pins[identities[0]]) + pin_lines(
            identities.drop_first(),
            pins,
        ),
    decreases identities.len(),
{
    let first = pin_line(identities[0], pins[identities[0]]);
    if identities.len() == 1 {
        assert(pin_lines(identities.drop_last(), pins) =~= Seq::<char>::empty());
        assert(pin_lines(identities.drop_first(), pins) =~= Seq::<char>::empty());
        assert(pin_lines(identities, pins) =~= first + pin_lines(identities.drop_first(), pins));
    } else {
        lemma_pin_lines_front(identities.drop_last(), pins);
        assert(identities.drop_last().drop_first() =~= identities.drop_first().drop_last());
        assert(pin_lines(identities, pins) =~= first + pin_lines(identities.drop_first(), pins));
    }
}

proof fn lemma_pin_lines_are_read_back(before: Pins, identities: Seq<Seq<char>>, pins: Pins)
    requires
        forall|i: int|
            0 <= i < identities.len() ==> storable_identity(#[trigger] identities[i])
                && storable_fingerprint(pins[identities[i]]),
    ensures
        with_lines(before, pin_lines(identities, pins)) == with_pins(before, identities, pins),
    decreases identities.len(),
{
    if identities.len() > 0 {
        let later = identities.drop_first();
        lemma_pin_lines_front(identities, pins);
        lemma_pin_line_is_read_back(
            before,
            identities[0],
            pins[identities[0]],
            pin_lines(later, pins),
        );
        assert forall|i: int| 0 <= i < later.len() implies storable_identity(#[trigger] later[i])
            && storable_fingerprint(pins[later[i]]) by {
            assert(later[i] == identities[i + 1]);
        }
        lemma_pin_lines_are_read_back(
            before.insert(identities[0], pins[identities[0]]),
            later,
            pins,
        );
    }
}

proof fn lemma_with_pins(before: Pins, identities: Seq<Seq<char>>, pins: Pins, identity: Seq<char>)
    ensures
        with_pins(before, identities, pins).contains_key(identity) <==> (before.contains_key(
            identity,
        ) || identities.contains(identity)),
        identities.contains(identity) ==> with_pins(before, identities, pins)[identity]
            == pins[identity],
        !identities.contains(identity) && before.contains_key(identity) ==> with_pins(
            before,
            identities,
            pins,
        )[identity] == before[identity],
    decreases identities.len(),
{
    if identities.len() > 0 {
        let first = identities[0];
        let later = identities.drop_first();
        lemma_with_pins(before.insert(first, pins[first]), later, pins, identity);
        assert(identities =~= seq![first] + later);
        if later.contains(identity) {
            let i = later.index_of(identity);
            assert(identities[i + 1] == identity);
        }
        if identities.contains(identity) && identity != first {
            let i = identities.index_of(identity);
            assert(later[i - 1] == identity);
        }
        if identity == first {
            assert(identities[0] == identity);
        }
    }
}

/// Loading the text that a store saved gives its pins back.
pub proof fn lemma_saved_pins_are_loaded(identities: Seq<Seq<char>>, pins: Pins)
    requires
        forall|identity: Seq<char>|
            #![trigger identities.contains(identity)]
            #![trigger pins.contains_key(identity)]
            identities.contains(identity) <==> pins.contains_key(identity),
        forall|identity: Seq<char>| #[trigger]
            pins.contains_key(identity) ==> storable_identity(identity) && storable_fingerprint(
                pins[identity],
            ),
    ensures
        with_lines(Map::empty(), pin_lines(identities, pins)) == pins,
{
    assert forall|i: int| 0 <= i < identities.len() implies storable_identity(
        #[trigger] identities[i],
    ) && storable_fingerprint(pins[identities[i]]) by {
        assert(identities.contains(identities[i]));
    }
    lemma_pin_lines_are_read_back(Map::empty(), identities, pins);
    let loaded = with_pins(Map::empty(), identities, pins);
    assert forall|identity: Seq<char>|
        #![trigger loaded.dom().contains(identity)]
        #![trigger pins.dom().contains(identity)]
        #![trigger loaded[identity]]
        loaded.dom().contains(identity) == pins.dom().contains(identity) && (pins.dom().contains(
            identity,
        ) ==> loaded[identity] == pins[identity]) by {
        lemma_with_pins(Map::empty(), identities, pins, identity);
    }
    assert(loaded =~= pins);
}

proof fn lemma_hex_joined_is_black(bytes: Seq<u8>, i: int)
    requires
        0 <= i < hex_joined(bytes).len(),
    ensures
        !text::white_space(hex_joined(bytes)[i]),
    decreases bytes.len(),
{
    if bytes.len() > 1 {
        let front = hex_joined(bytes.drop_last());
        if i < front.len() {
            lemma_hex_joined_is_black(bytes.drop_last(), i);
        }
    }
}

/// A fingerprint survives being saved.
pub proof fn lemma_fingerprints_are_storable(digest: Seq<u8>)
    ensures
        storable_fingerprint(fingerprint_text(digest)),
{
    let fp = fingerprint_text(digest);
    reveal_strlit("SHA256:");
    assert forall|i: int| 0 <= i < fp.len() implies !text::white_space(#[trigger] fp[i]) by {
        if i >= 7 {
            lemma_hex_joined_is_black(digest, i - 7);
        }
    }
    assert(!text::white_space(fp[0]));
    assert(!text::white_space(fp[fp.len() - 1]));
}

proof fn lemma_hex_joined_at(bytes: Seq<u8>, i: int)
    requires
        0 <= i < bytes.len(),
    ensures
        hex_joined(bytes).len() == 3 * bytes.len() - 1,
        hex_joined(bytes)[3 * i] == text::hex(bytes[i])[0],
        hex_joined(bytes)[3 * i + 1] == text::hex(bytes[i])[1],
        i + 1 < bytes.len() ==> hex_joined(bytes)[3 * i + 2] == ':',
    decreases bytes.len(),
{
    lemma_hex_joined_len(bytes);
    if bytes.len() > 1 {
        let front = bytes.drop_last();
        lemma_hex_joined_len(front);
        if i < front.len() {
            lemma_hex_joined_at(front, i);
        }
    }
}

/// A fingerprint spells the digest: behind `SHA256:` stand two hexadecimal digits in lower case for
/// each byte, in order, with a colon between any two bytes and nothing else.
pub proof fn lemma_fingerprint_spells_the_digest(digest: Seq<u8>, i: int)
    requires
        0 <= i < digest.len(),
    ensures
        ({
            let fp = fingerprint_text(digest);
            &&& fp.len() == 6 + 3 * digest.len()
            &&& fp.take(7) == "SHA256:"@
            &&& 16 * text::hex_value(fp[7 + 3 * i]) + text::hex_value(fp[8 + 3 * i]) == digest[i]
            &&& ('0' <= fp[7 + 3 * i] && fp[7 + 3 * i] <= '9') || ('a' <= fp[7 + 3 * i] && fp[7 + 3
                * i] <= 'f')
            &&& ('0' <= fp[8 + 3 * i] && fp[8 + 3 * i] <= '9') || ('a' <= fp[8 + 3 * i] && fp[8 + 3
                * i] <= 'f')
            &&& i + 1 < digest.len() ==> fp[9 + 3 * i] == ':'
        }),
{
    let fp = fingerprint_text(digest);
    reveal_strlit("SHA256:");
    lemma_hex_joined_at(digest, i);
    text::lemma_hex_stands_for_the_byte(digest[i]);
    assert(fp.take(7) =~= "SHA256:"@);
    assert(fp[7 + 3 * i] == hex_joined(digest)[3 * i]);
    assert(fp[8 + 3 * i] == hex_joined(digest)[3 * i + 1]);
    if i + 1 < digest.len() {
        assert(fp[9 + 3 * i] == hex_joined(digest)[3 * i + 2]);
    }
}

/// Whoever is seen for the first time is trusted and pinned, and nobody else is touched. Whoever is
/// known is trusted with the very fingerprint that is pinned, and refused with any other, in words
/// that name the identity, the trusted fingerprint and the one that came, in this order.
pub proof fn lemma_trust_is_on_first_use(
    pins: Pins,
    identity: Seq<char>,
    fingerprint: Seq<char>,
    r: Result<(), String>,
    after: Pins,
    other: Seq<char>,
)
    requires
        checked(pins, identity, fingerprint, r, after),
    ensures
        r is Ok <==> !pins.contains_key(identity) || pins[identity] == fingerprint,
        after.contains_key(identity),
        !pins.contains_key(identity) ==> after[identity] == fingerprint,
        pins.contains_key(identity) ==> after == pins,
        other != identity ==> after.contains_key(other) == pins.contains_key(other) && (
        pins.contains_key(other) ==> after[other] == pins[other]),
        r matches Err(reason) ==> reason@ == "fingerprint changed for "@ + identity + ": trusted "@
            + pins[identity] + ", got "@ + fingerprint,
{
}

/// A line states a pin if there is white space in it: what stands before the first of it is the
/// identity, and what stands behind it, less white space at its ends, the fingerprint. A line
/// without any states nothing.
pub proof fn lemma_lines_state_pins(
    pins: Pins,
    identity: Seq<char>,
    gap: char,
    rest: Seq<char>,
)
    requires
        forall|i: int| 0 <= i < identity.len() ==> !text::white_space(#[trigger] identity[i]),
        text::white_space(gap),
    ensures
        with_line(pins, identity.push(gap) + rest) == pins.insert(identity, text::trimmed(rest)),
        with_line(pins, identity) == pins,
{
    let line = identity.push(gap) + rest;
    assert forall|i: int| 0 <= i < identity.len() implies !blank()(#[trigger] line[i]) by {
        assert(!text::white_space(identity[i]));
    }
    assert forall|i: int| 0 <= i < identity.len() implies !blank()(#[trigger] identity[i]) by {
        assert(!text::white_space(identity[i]));
    }
    text::lemma_run_length(line, blank(), identity.len());
    text::lemma_run_length(identity, blank(), identity.len());
    assert(line.take(identity.len() as int) =~= identity);
    assert(line.skip(identity.len() as int + 1) =~= rest);
}

/// The text of a store is read line by line: each ends with a line feed, with or without a carriage
/// return before it, and the last may go without. A later line goes before an earlier one of the
/// same identity.
pub proof fn lemma_store_is_read_by_lines(pins: Pins, line: Seq<char>, rest: Seq<char>)
    requires
        forall|i: int| 0 <= i < line.len() ==> #[trigger] line[i] != '\n',
    ensures
        line.len() == 0 || line.last() != '\r' ==> with_lines(pins, line.push('\n') + rest)
            == with_lines(with_line(pins, line), rest),
        with_lines(pins, line.push('\r').push('\n') + rest) == with_lines(
            with_line(pins, line),
            rest,
        ),
        with_lines(pins, line) == with_line(pins, line),
        with_lines(pins, Seq::empty()) == pins,
{
    let body = line.push('\n') + rest;
    let returned = line.push('\r');
    let other = returned.push('\n') + rest;
    let n = line.len();
    assert forall|i: int| 0 <= i < n implies !line_feed()(#[trigger] body[i]) by {
        assert(line[i] != '\n');
    }
    text::lemma_run_length(body, line_feed(), n);
    assert(body.take(n as int) =~= line);
    assert(body.skip(n as int + 1) =~= rest);
    assert forall|i: int| 0 <= i < n + 1 implies !line_feed()(#[trigger] other[i]) by {
        if i < n {
            assert(line[i] != '\n');
        }
    }
    text::lemma_run_length(other, line_feed(), n + 1);
    assert(other.take(n as int + 1) =~= returned);
    assert(other.skip(n as int + 2) =~= rest);
    assert(returned.drop_last() =~= line);
    assert forall|i: int| 0 <= i < n implies !line_feed()(#[trigger] line[i]) by {
        assert(line[i] != '\n');
    }
    text::lemma_run_length(line, line_feed(), n);
    if n == 0 {
        text::lemma_run_length(line, blank(), 0);
    }
}

/// A store is saved as one line for each identity, in the order in which they were pinned: the
/// identity, a space, the fingerprint and a line feed.
pub proof fn lemma_store_is_saved_by_lines(
    identities: Seq<Seq<char>>,
    identity: Seq<char>,
    pins: Pins,
)
    ensures
        pin_lines(Seq::empty(), pins).len() == 0,
        pin_lines(identities.push(identity), pins) == pin_lines(identities, pins) + (identity
            + seq![' '] + pins[identity] + seq!['\n']),
{
    assert(identities.push(identity).drop_last() =~= identities);
    assert(pin_line(identity, pins[identity]) =~= identity + seq![' '] + pins[identity] + seq![
        '\n',
    ]);
}

/// A store has to be written once somebody was seen for the first time, and stays so whatever else
/// is checked. Checking somebody who is known does not ask for it.
pub proof fn lemma_first_sights_are_saved(unsaved: bool, pins: Pins, identity: Seq<char>)
    ensures
        !pins.contains_key(identity) ==> needs_saving(unsaved, pins, identity),
        pins.contains_key(identity) ==> needs_saving(unsaved, pins, identity) == unsaved,
{
}

} // verus!
