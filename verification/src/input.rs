//! The boundary between the state machines and the OS: the grab switch, the errors of input
//! backends, and the choice of the display that is shared.

use vstd::prelude::*;

verus! {

/// A flag that the server toggles to start and stop suppressing local input. The capture backend
/// reads it at every event. There is one flag: it is shared, never copied.
#[derive(Debug)]
pub struct GrabSwitch {
    on: bool,
}

impl View for GrabSwitch {
    type V = bool;

    closed spec fn view(&self) -> bool {
        self.on
    }
}

impl Default for GrabSwitch {
    fn default() -> (s: Self)
        ensures
            !s@,
    {
        GrabSwitch { on: false }
    }
}

impl GrabSwitch {
    pub fn new() -> (s: Self)
        ensures
            !s@,
    {
        Self::default()
    }

    pub fn set(&mut self, on: bool)
        ensures
            final(self)@ == on,
    {
        self.on = on;
    }

    pub fn enabled(&self) -> (on: bool)
        ensures
            on == self@,
    {
        self.on
    }
}

#[derive(Debug, PartialEq, Eq)]
pub enum InputError {
    /// There is no backend.
    Unavailable(String),
    /// The OS has not granted the permission (Accessibility, Input Monitoring).
    PermissionDenied(String),
    /// The backend failed.
    Backend(String),
}

impl InputError {
    /// What the error says.
    pub open spec fn message_text(self) -> Seq<char> {
        match self {
            InputError::Unavailable(s) => "input backend unavailable: "@ + s@,
            InputError::PermissionDenied(s) =>
                "permission denied (grant Accessibility / Input Monitoring): "@ + s@,
            InputError::Backend(s) => "backend error: "@ + s@,
        }
    }

    /// What the error says.
    pub fn message(&self) -> (text: String)
        ensures
            text@ == self.message_text(),
    {
        match self {
            InputError::Unavailable(s) => "input backend unavailable: ".to_string().concat(
                s.as_str(),
            ),
            InputError::PermissionDenied(s) =>
                "permission denied (grant Accessibility / Input Monitoring): ".to_string().concat(
                s.as_str(),
            ),
            InputError::Backend(s) => "backend error: ".to_string().concat(s.as_str()),
        }
    }
}

/// A display as the OS reports it.
#[derive(Clone, Copy, Debug, PartialEq, Eq, Structural)]
pub struct Display {
    pub is_primary: bool,
    pub width: u32,
    pub height: u32,
}

/// Whether the `k`-th display counts as the primary one: it is the first that says so, or the first
/// of all if none does.
pub open spec fn counts_as_primary(displays: Seq<Display>, k: int) -> bool {
    &&& 0 <= k < displays.len()
    &&& forall|i: int| 0 <= i < k ==> !(#[trigger] displays[i]).is_primary
    &&& displays[k].is_primary || (k == 0 && forall|i: int|
        0 <= i < displays.len() ==> !(#[trigger] displays[i]).is_primary)
}

/// Whether a size is that of the display that counts as the primary one.
pub open spec fn sizes_primary(displays: Seq<Display>, size: Option<(i32, i32)>) -> bool {
    match size {
        Some((w, h)) => exists|k: int| #[trigger]
            counts_as_primary(displays, k) && w == displays[k].width as i32 && h
                == displays[k].height as i32,
        None => displays.len() == 0,
    }
}

/// The primary display's size, used to fill in the screen geometry so that the operator need not
/// write resolutions by hand. There is none when the OS reports no display, in which case the
/// caller falls back to a configured size.
pub fn primary_display_size(displays: &[Display]) -> (size: Option<(i32, i32)>)
    ensures
        sizes_primary(displays@, size),
{
    if displays.len() == 0 {
        return None;
    }
    let mut i: usize = 0;
    while i < displays.len()
        invariant
            i <= displays@.len(),
            forall|k: int| 0 <= k < i ==> !(#[trigger] displays@[k]).is_primary,
        decreases displays@.len() - i,
    {
        if displays[i].is_primary {
            assert(counts_as_primary(displays@, i as int));
            return Some((displays[i].width as i32, displays[i].height as i32));
        }
        i = i + 1;
    }
    assert(counts_as_primary(displays@, 0));
    Some((displays[0].width as i32, displays[0].height as i32))
}

/// One display counts as the primary one, if there is any: the first that says so, and the first of
/// all where none does.
pub proof fn lemma_one_display_is_primary(displays: Seq<Display>, k: int, j: int)
    requires
        displays.len() > 0,
    ensures
        exists|i: int| #[trigger] counts_as_primary(displays, i),
        counts_as_primary(displays, k) && counts_as_primary(displays, j) ==> k == j,
        counts_as_primary(displays, k) ==> 0 <= k < displays.len(),
        counts_as_primary(displays, k) && 0 <= j < displays.len() && displays[j].is_primary
            ==> displays[k].is_primary && k <= j,
        counts_as_primary(displays, k) && !displays[k].is_primary ==> k == 0,
{
    lemma_first_primary(displays, displays.len() as int);
    if counts_as_primary(displays, k) && counts_as_primary(displays, j) {
        assert(k < j ==> !displays[k].is_primary);
        assert(j < k ==> !displays[j].is_primary);
    }
    if counts_as_primary(displays, k) && 0 <= j < k {
        assert(!displays[j].is_primary);
    }
}

proof fn lemma_first_primary(displays: Seq<Display>, n: int)
    requires
        0 <= n <= displays.len(),
        displays.len() > 0,
    ensures
        (exists|i: int| #[trigger] counts_as_primary(displays, i)) || forall|i: int|
            0 <= i < n ==> !(#[trigger] displays[i]).is_primary,
        n == displays.len() ==> exists|i: int| #[trigger] counts_as_primary(displays, i),
    decreases n,
{
    if n > 0 {
        lemma_first_primary(displays, n - 1);
        if (forall|i: int| 0 <= i < n - 1 ==> !(#[trigger] displays[i]).is_primary) && displays[n
            - 1].is_primary {
            assert(counts_as_primary(displays, n - 1));
        }
    }
    if n == displays.len() && forall|i: int| 0 <= i < n ==> !(#[trigger] displays[i]).is_primary {
        assert(counts_as_primary(displays, 0));
    }
}

/// The size is that of the display that counts as the primary one, width first, and there is one if
/// there is any display. A length that does not fit is cut to its low-order bits.
pub proof fn lemma_size_is_that_of_the_primary(
    displays: Seq<Display>,
    size: Option<(i32, i32)>,
    k: int,
)
    requires
        sizes_primary(displays, size),
    ensures
        size is Some <==> displays.len() > 0,
        size matches Some((w, h)) ==> (counts_as_primary(displays, k) ==> {
            &&& displays[k].width <= i32::MAX ==> w == displays[k].width
            &&& displays[k].height <= i32::MAX ==> h == displays[k].height
            &&& (displays[k].width - w) % 0x1_0000_0000 == 0
            &&& (displays[k].height - h) % 0x1_0000_0000 == 0
        }),
{
    if let Some((w, h)) = size {
        let j = choose|j: int| #[trigger]
            counts_as_primary(displays, j) && w == displays[j].width as i32 && h
                == displays[j].height as i32;
        assert(counts_as_primary(displays, j));
        lemma_one_display_is_primary(displays, k, j);
        let (width, height) = (displays[j].width, displays[j].height);
        assert((width - (width as i32)) % 0x1_0000_0000 == 0) by (bit_vector);
        assert((height - (height as i32)) % 0x1_0000_0000 == 0) by (bit_vector);
    }
}

/// An error says what kind it is, and then what is said of it.
pub proof fn lemma_errors_say_what_is_wrong(reason: String)
    ensures
        InputError::Unavailable(reason).message_text() == "input backend unavailable: "@ + reason@,
        InputError::PermissionDenied(reason).message_text()
            == "permission denied (grant Accessibility / Input Monitoring): "@ + reason@,
        InputError::Backend(reason).message_text() == "backend error: "@ + reason@,
{
}

} // verus!
