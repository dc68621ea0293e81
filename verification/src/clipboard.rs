//! Clipboard access for cross-machine clipboard sharing.
//!
//! The protocol carries clipboard ownership and data; this module is the local-machine side.

use crate::input::InputError;
use crate::text::same_text;
use vstd::prelude::*;

verus! {

/// Read and write the local text clipboard.
pub trait Clipboard {
    fn get_text(&mut self) -> (r: Result<String, InputError>);

    fn set_text(&mut self, text: &str) -> (r: Result<(), InputError>);
}

/// In-memory clipboard.
#[derive(Debug)]
pub struct MockClipboard {
    buf: String,
}

impl View for MockClipboard {
    type V = Seq<char>;

    closed spec fn view(&self) -> Seq<char> {
        self.buf@
    }
}

impl Default for MockClipboard {
    fn default() -> (c: Self)
        ensures
            c@ == ""@,
    {
        MockClipboard { buf: "".to_string() }
    }
}

impl MockClipboard {
    pub fn new() -> (c: Self)
        ensures
            c@ == ""@,
    {
        Self::default()
    }
}

impl Clipboard for MockClipboard {
    fn get_text(&mut self) -> (r: Result<String, InputError>)
        ensures
            r matches Ok(text) && text@ == old(self)@,
            final(self)@ == old(self)@,
    {
        Ok(self.buf.clone())
    }

    fn set_text(&mut self, text: &str) -> (r: Result<(), InputError>)
        ensures
            r is Ok,
            final(self)@ == text@,
    {
        self.buf = text.to_string();
        Ok(())
    }
}

/// Whether what a clipboard holds is a change to announce: a text that is not the baseline and not
/// empty.
pub open spec fn is_change(baseline: Seq<char>, current: Seq<char>) -> bool {
    current != baseline && current.len() > 0
}

/// What a poll announces, if it announces something. A clipboard that could not be read is `None`.
pub open spec fn announced(baseline: Seq<char>, current: Option<Seq<char>>) -> Option<Seq<char>> {
    match current {
        Some(text) if is_change(baseline, text) => Some(text),
        _ => None,
    }
}

/// The baseline after a poll: what was announced, if something was.
pub open spec fn baseline_after(baseline: Seq<char>, current: Option<Seq<char>>) -> Seq<char> {
    match announced(baseline, current) {
        Some(text) => text,
        None => baseline,
    }
}

/// The baseline after a series of polls.
pub open spec fn baseline_after_all(
    baseline: Seq<char>,
    polls: Seq<Option<Seq<char>>>,
) -> Seq<char>
    decreases polls.len(),
{
    if polls.len() == 0 {
        baseline
    } else {
        baseline_after(baseline_after_all(baseline, polls.drop_last()), polls.last())
    }
}

/// What reading a clipboard gave.
pub open spec fn read_text(current: Result<String, InputError>) -> Option<Seq<char>> {
    match current {
        Ok(text) => Some(text@),
        Err(_) => None,
    }
}

/// The baseline at the start: what the clipboard holds, or nothing if it could not be read.
pub open spec fn first_baseline(current: Result<String, InputError>) -> Seq<char> {
    match current {
        Ok(text) => text@,
        Err(_) => Seq::empty(),
    }
}

/// The baseline once a text from remote was put on the clipboard.
pub open spec fn after_written(baseline: Seq<char>, text: Seq<char>) -> Seq<char> {
    text
}

/// Watches a clipboard for local changes. What was put there from remote becomes the baseline, so
/// that a remote paste is not echoed back.
#[derive(Debug)]
pub struct ClipboardWatch {
    last: String,
}

impl View for ClipboardWatch {
    type V = Seq<char>;

    closed spec fn view(&self) -> Seq<char> {
        self.last@
    }
}

impl ClipboardWatch {
    /// Starts from what the clipboard holds. A clipboard that could not be read counts as empty.
    pub fn new(current: Result<String, InputError>) -> (w: Self)
        ensures
            w@ == first_baseline(current),
    {
        match current {
            Ok(text) => ClipboardWatch { last: text },
            Err(_) => ClipboardWatch { last: String::new() },
        }
    }

    /// Takes note of a text that came from remote and was put on the clipboard.
    pub fn written(&mut self, text: String)
        ensures
            final(self)@ == after_written(old(self)@, text@),
    {
        self.last = text;
    }

    /// Takes what the clipboard holds now, and returns it if it is a change to announce.
    pub fn polled(&mut self, current: Result<String, InputError>) -> (change: Option<String>)
        ensures
            match announced(old(self)@, read_text(current)) {
                Some(text) => change matches Some(c) && c@ == text,
                None => change is None,
            },
            final(self)@ == baseline_after(old(self)@, read_text(current)),
    {
        match current {
            Ok(text) => {
                let empty = text.as_str().unicode_len() == 0;
                if !empty && !same_text(text.as_str(), self.last.as_str()) {
                    self.last = text.clone();
                    Some(text)
                } else {
                    None
                }
            },
            Err(_) => None,
        }
    }
}

/// After a text was put on the clipboard from remote, polls that find this text, nothing, or no
/// clipboard at all announce nothing, however many there are.
pub proof fn lemma_remote_paste_is_not_echoed(
    written: Seq<char>,
    polls: Seq<Option<Seq<char>>>,
    i: int,
)
    requires
        forall|k: int|
            0 <= k < polls.len() ==> ((#[trigger] polls[k]) matches Some(text) ==> text == written
                || text.len() == 0),
        0 <= i < polls.len(),
    ensures
        baseline_after_all(written, polls) == written,
        announced(baseline_after_all(written, polls.take(i)), polls[i]) is None,
{
    lemma_baseline_stays(written, polls);
    lemma_baseline_stays(written, polls.take(i));
}

/// Polls that find what is the baseline already leave it.
proof fn lemma_baseline_stays(written: Seq<char>, polls: Seq<Option<Seq<char>>>)
    requires
        forall|k: int|
            0 <= k < polls.len() ==> ((#[trigger] polls[k]) matches Some(text) ==> text == written
                || text.len() == 0),
    ensures
        baseline_after_all(written, polls) == written,
    decreases polls.len(),
{
    if polls.len() > 0 {
        lemma_baseline_stays(written, polls.drop_last());
        assert(polls.last() == polls[polls.len() - 1]);
    }
}

/// A text of the user's own that replaces what came from remote is announced, once: the next poll
/// that finds it announces nothing.
pub proof fn lemma_local_copy_is_announced_once(baseline: Seq<char>, text: Seq<char>)
    requires
        text.len() > 0,
        text != baseline,
    ensures
        announced(baseline, Some(text)) == Some(text),
        announced(baseline_after(baseline, Some(text)), Some(text)) is None,
{
}

/// A poll announces exactly what is new: a text that is there and is not the baseline. It is then
/// the baseline, and else the baseline stays.
pub proof fn lemma_polls_announce_what_is_new(baseline: Seq<char>, current: Option<Seq<char>>)
    ensures
        announced(baseline, current) is Some <==> (current matches Some(text) && text != baseline
            && text.len() > 0),
        announced(baseline, current) is Some ==> announced(baseline, current) == current
            && baseline_after(baseline, current) == current->0,
        announced(baseline, current) is None ==> baseline_after(baseline, current) == baseline,
{
}

/// Whatever was put on the clipboard from remote is the baseline, whatever it was before, so that
/// it is not announced when it is found there, and anything else is. What a clipboard holds at the
/// start is not announced either, and one that could not be read counts as empty.
pub proof fn lemma_written_text_is_the_baseline(
    baseline: Seq<char>,
    text: Seq<char>,
    found: Seq<char>,
    current: Result<String, InputError>,
)
    ensures
        announced(after_written(baseline, text), Some(text)) is None,
        found.len() > 0 && found != text ==> announced(after_written(baseline, text), Some(found))
            == Some(found),
        announced(first_baseline(current), read_text(current)) is None,
        found.len() > 0 && read_text(current) != Some(found) ==> announced(
            first_baseline(current),
            Some(found),
        ) == Some(found),
{
}

} // verus!
