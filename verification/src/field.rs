//! What a message looks like on the wire: a list of fields, each of one of four kinds.

use crate::codec::MAX_FIELD_LEN;
use crate::error::ProtoError;
use crate::wire;
use vstd::arithmetic::power::*;
use vstd::prelude::*;
use vstd::utf8::*;

verus! {

/// How a field is written.
pub enum Kind {
    /// An unsigned number of this many bytes.
    Number(nat),
    /// A length-prefixed byte string.
    Bytes,
    /// A length-prefixed UTF-8 string.
    Text,
    /// A counted vector of signed 32-bit numbers.
    Ints,
}

/// A field and its value.
pub enum Field {
    Number { width: nat, value: nat },
    Bytes(Seq<u8>),
    Text(Seq<char>),
    Ints(Seq<i32>),
}

impl Field {
    /// How the field is written.
    pub open spec fn kind(self) -> Kind {
        match self {
            Field::Number { width, .. } => Kind::Number(width),
            Field::Bytes(_) => Kind::Bytes,
            Field::Text(_) => Kind::Text,
            Field::Ints(_) => Kind::Ints,
        }
    }

    /// The bytes of the field.
    pub open spec fn wire(self) -> Seq<u8> {
        match self {
            Field::Number { width, value } => wire::be_wire(value, width),
            Field::Bytes(bytes) => wire::bytes_wire(bytes),
            Field::Text(text) => wire::bytes_wire(encode_utf8(text)),
            Field::Ints(ints) => wire::ints_wire(ints),
        }
    }

    /// Whether the field is within the limits of the protocol.
    pub open spec fn fits(self) -> bool {
        match self {
            Field::Number { width, value } => width <= 8 && value < pow(256, width),
            Field::Bytes(bytes) => bytes.len() <= MAX_FIELD_LEN,
            Field::Text(text) => encode_utf8(text).len() <= MAX_FIELD_LEN,
            Field::Ints(ints) => ints.len() <= MAX_FIELD_LEN / 4,
        }
    }

    /// The value of a number field.
    pub open spec fn number(self) -> nat {
        self->value
    }
}

/// Reads a field of the given kind.
pub open spec fn read_field(kind: Kind, input: Seq<u8>) -> wire::Read<Field> {
    match kind {
        Kind::Number(width) => match wire::read_number(width, input) {
            (Ok(value), rest) => (Ok(Field::Number { width, value }), rest),
            (Err(e), rest) => (Err(e), rest),
        },
        Kind::Bytes => match wire::read_bytes(input) {
            (Ok(bytes), rest) => (Ok(Field::Bytes(bytes)), rest),
            (Err(e), rest) => (Err(e), rest),
        },
        Kind::Text => match wire::read_text(input) {
            (Ok(text), rest) => (Ok(Field::Text(text)), rest),
            (Err(e), rest) => (Err(e), rest),
        },
        Kind::Ints => match wire::read_ints(input) {
            (Ok(ints), rest) => (Ok(Field::Ints(ints)), rest),
            (Err(e), rest) => (Err(e), rest),
        },
    }
}

/// Reads the fields of the given kinds that follow those in `read`, up to the first that fails.
pub open spec fn read_fields(kinds: Seq<Kind>, read: Seq<Field>, input: Seq<u8>) -> wire::Read<
    Seq<Field>,
>
    decreases kinds.len() - read.len(),
{
    if read.len() >= kinds.len() {
        (Ok(read), input)
    } else {
        match read_field(kinds[read.len() as int], input) {
            (Ok(field), rest) => read_fields(kinds, read.push(field), rest),
            (Err(e), rest) => (Err(e), rest),
        }
    }
}

/// The kinds of some fields.
pub open spec fn kinds_of(fields: Seq<Field>) -> Seq<Kind> {
    fields.map_values(|f: Field| f.kind())
}

/// The bytes of the fields from the `from`-th on.
pub open spec fn fields_wire(fields: Seq<Field>, from: int) -> Seq<u8>
    decreases fields.len() - from,
{
    if from >= fields.len() {
        Seq::empty()
    } else {
        fields[from].wire() + fields_wire(fields, from + 1)
    }
}

/// The bytes of the first `n` fields behind `head`.
pub open spec fn written(head: Seq<u8>, fields: Seq<Field>, n: nat) -> Seq<u8>
    decreases n,
{
    if n == 0 {
        head
    } else {
        written(head, fields, (n - 1) as nat) + fields[n - 1].wire()
    }
}

/// Whether every field is within the limits of the protocol.
pub open spec fn all_fit(fields: Seq<Field>) -> bool {
    forall|i: int| 0 <= i < fields.len() ==> (#[trigger] fields[i]).fits()
}

proof fn lemma_prefix(head: Seq<u8>, tail: Seq<u8>)
    ensures
        (head + tail).take(head.len() as int) == head,
        (head + tail).skip(head.len() as int) == tail,
{
    assert((head + tail).take(head.len() as int) =~= head);
    assert((head + tail).skip(head.len() as int) =~= tail);
}

proof fn lemma_number_roundtrip(width: nat, value: nat, tail: Seq<u8>)
    requires
        value < pow(256, width),
    ensures
        wire::read_number(width, wire::be_wire(value, width) + tail) == (
            Ok::<nat, ProtoError>(value),
            tail,
        ),
{
    let head = wire::be_wire(value, width);
    wire::lemma_be_wire_len(value, width);
    wire::lemma_be_roundtrip(value, width);
    lemma_prefix(head, tail);
}

proof fn lemma_bytes_roundtrip(bytes: Seq<u8>, tail: Seq<u8>)
    requires
        bytes.len() <= MAX_FIELD_LEN,
    ensures
        wire::read_bytes(wire::bytes_wire(bytes) + tail) == (
            Ok::<Seq<u8>, ProtoError>(bytes),
            tail,
        ),
{
    wire::lemma_widths();
    lemma_number_roundtrip(4, bytes.len(), bytes + tail);
    assert(wire::bytes_wire(bytes) + tail =~= wire::be_wire(bytes.len(), 4) + (bytes + tail));
    lemma_prefix(bytes, tail);
}

proof fn lemma_ints_body(ints: Seq<i32>, tail: Seq<u8>)
    ensures
        wire::ints_body(ints).len() == 4 * ints.len(),
        forall|i: int|
            0 <= i < ints.len() ==> #[trigger] wire::int_at(wire::ints_body(ints) + tail, i)
                == ints[i],
    decreases ints.len(),
{
    if ints.len() > 0 {
        let front = ints.drop_last();
        let last = wire::be_wire(wire::bits32(ints.last()), 4);
        let all = wire::ints_body(ints) + tail;
        wire::lemma_be_wire_len(wire::bits32(ints.last()), 4);
        wire::lemma_widths();
        wire::lemma_be_roundtrip(wire::bits32(ints.last()), 4);
        lemma_ints_body(front, last + tail);
        assert(all =~= wire::ints_body(front) + (last + tail));
        assert forall|i: int| 0 <= i < ints.len() implies #[trigger] wire::int_at(all, i)
            == ints[i] by {
            if i < front.len() {
                assert(wire::int_at(wire::ints_body(front) + (last + tail), i) == front[i]);
            } else {
                assert(all.subrange(4 * i, 4 * i + 4) =~= last);
            }
        }
    }
}

proof fn lemma_ints_roundtrip(ints: Seq<i32>, tail: Seq<u8>)
    requires
        ints.len() <= MAX_FIELD_LEN / 4,
    ensures
        wire::read_ints(wire::ints_wire(ints) + tail) == (Ok::<Seq<i32>, ProtoError>(ints), tail),
{
    let body = wire::ints_body(ints) + tail;
    wire::lemma_widths();
    lemma_number_roundtrip(4, ints.len(), body);
    assert(wire::ints_wire(ints) + tail =~= wire::be_wire(ints.len(), 4) + body);
    lemma_ints_body(ints, tail);
    assert(Seq::new(ints.len(), |i: int| wire::int_at(body, i)) =~= ints);
    lemma_prefix(wire::ints_body(ints), tail);
}

proof fn lemma_written_split(head: Seq<u8>, fields: Seq<Field>, n: nat)
    requires
        n <= fields.len(),
    ensures
        written(head, fields, n) + fields_wire(fields, n as int) == head + fields_wire(fields, 0),
    decreases n,
{
    if n > 0 {
        let before = (n - 1) as nat;
        lemma_written_split(head, fields, before);
        assert(written(head, fields, n) + fields_wire(fields, n as int) =~= written(
            head,
            fields,
            before,
        ) + fields_wire(fields, before as int));
    }
}

/// What stands behind the head is the bytes of the fields, one after the other.
pub proof fn lemma_written(head: Seq<u8>, fields: Seq<Field>)
    ensures
        written(head, fields, fields.len()) == head + fields_wire(fields, 0),
{
    lemma_written_split(head, fields, fields.len());
    assert(written(head, fields, fields.len()) + fields_wire(fields, fields.len() as int)
        =~= written(head, fields, fields.len()));
}

/// A field within the limits is read back from its bytes, and nothing more is consumed.
pub proof fn lemma_field_roundtrip(field: Field, tail: Seq<u8>)
    requires
        field.fits(),
    ensures
        read_field(field.kind(), field.wire() + tail) == (Ok::<Field, ProtoError>(field), tail),
{
    match field {
        Field::Number { width, value } => lemma_number_roundtrip(width, value, tail),
        Field::Bytes(bytes) => lemma_bytes_roundtrip(bytes, tail),
        Field::Text(text) => {
            encode_utf8_valid_utf8(text);
            encode_utf8_decode_utf8(text);
            lemma_bytes_roundtrip(encode_utf8(text), tail);
        },
        Field::Ints(ints) => lemma_ints_roundtrip(ints, tail),
    }
}

/// Fields within the limits are read back from their bytes, and nothing more is consumed.
pub proof fn lemma_fields_roundtrip(fields: Seq<Field>, from: int, tail: Seq<u8>)
    requires
        all_fit(fields),
        0 <= from <= fields.len(),
    ensures
        read_fields(kinds_of(fields), fields.take(from), fields_wire(fields, from) + tail) == (
            Ok::<Seq<Field>, ProtoError>(fields),
            tail,
        ),
    decreases fields.len() - from,
{
    if from < fields.len() {
        let later = fields_wire(fields, from + 1) + tail;
        lemma_field_roundtrip(fields[from], later);
        assert(fields_wire(fields, from) + tail =~= fields[from].wire() + later);
        assert(fields.take(from).push(fields[from]) =~= fields.take(from + 1));
        lemma_fields_roundtrip(fields, from + 1, tail);
    } else {
        assert(fields.take(from) =~= fields);
        assert(fields_wire(fields, from) + tail =~= tail);
    }
}

} // verus!
