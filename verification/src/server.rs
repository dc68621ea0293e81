//! The server-side routing brain.
//!
//! [`ServerMachine`] is a pure state machine: feed it normalised [`LocalEvent`]s captured on the
//! server's machine and it returns the [`ServerAction`]s that the runtime must carry out:
//! forwarding protocol messages to a client, toggling the local input grab, or warping the local
//! cursor when control returns home.

use crate::events::{KeyAction, LocalEvent};
use crate::keys::{key, modifier, KeyId, KeyModifierMask};
use crate::layout;
use crate::layout::{LayoutView, ScreenLayout};
use crate::message::{Message, MessageView};
use crate::text::same_text;
use vstd::prelude::*;

verus! {

/// Something the runtime must do as a result of an input event.
#[derive(Clone, Debug, PartialEq, Eq)]
pub enum ServerAction {
    /// Send `msg` to the client owning `screen`.
    Send { screen: String, msg: Message },
    /// Start (`true`) or stop (`false`) grabbing local input.
    SetGrab(bool),
    /// Warp the local OS cursor to `(x, y)` on the local screen.
    WarpCursor { x: i32, y: i32 },
    /// The active screen changed (for status and UI).
    ActiveChanged { screen: String },
}

/// The mathematical value of a [`ServerAction`].
pub enum ServerActionView {
    Send { screen: Seq<char>, msg: MessageView },
    SetGrab(bool),
    WarpCursor { x: int, y: int },
    ActiveChanged { screen: Seq<char> },
}

impl View for ServerAction {
    type V = ServerActionView;

    open spec fn view(&self) -> ServerActionView {
        match *self {
            ServerAction::Send { screen, msg } => ServerActionView::Send {
                screen: screen@,
                msg: msg@,
            },
            ServerAction::SetGrab(on) => ServerActionView::SetGrab(on),
            ServerAction::WarpCursor { x, y } => ServerActionView::WarpCursor {
                x: x as int,
                y: y as int,
            },
            ServerAction::ActiveChanged { screen } => ServerActionView::ActiveChanged {
                screen: screen@,
            },
        }
    }
}

/// The values of some actions.
pub open spec fn action_views(actions: Seq<ServerAction>) -> Seq<ServerActionView> {
    actions.map_values(|a: ServerAction| a@)
}

pub struct ServerMachine {
    layout: ScreenLayout,
    local_screen: String,
    active: String,
    cursor_x: i32,
    cursor_y: i32,
    modifiers: KeyModifierMask,
    seq: u32,
    /// When true, the cursor is pinned to the active screen and edge crossings are ignored.
    switch_locked: bool,
}

/// The mathematical value of a [`ServerMachine`].
pub struct ServerState {
    pub layout: LayoutView,
    pub local_screen: Seq<char>,
    pub active: Seq<char>,
    pub cursor_x: int,
    pub cursor_y: int,
    pub modifiers: KeyModifierMask,
    pub seq: u32,
    pub locked: bool,
}

impl View for ServerMachine {
    type V = ServerState;

    closed spec fn view(&self) -> ServerState {
        ServerState {
            layout: self.layout@,
            local_screen: self.local_screen@,
            active: self.active@,
            cursor_x: self.cursor_x as int,
            cursor_y: self.cursor_y as int,
            modifiers: self.modifiers,
            seq: self.seq,
            locked: self.switch_locked,
        }
    }
}

/// The modifier that a key sets while it is down.
pub open spec fn modifier_of(id: KeyId) -> KeyModifierMask {
    if id == key::SHIFT_L || id == key::SHIFT_R {
        modifier::SHIFT
    } else if id == key::CONTROL_L || id == key::CONTROL_R {
        modifier::CONTROL
    } else if id == key::ALT_L {
        modifier::ALT
    } else if id == key::ALT_R {
        modifier::ALT_GR
    } else if id == key::SUPER_L || id == key::SUPER_R {
        modifier::SUPER
    } else if id == key::META_L || id == key::META_R {
        modifier::META
    } else {
        0
    }
}

/// The middle of a screen, or the origin if it is not there.
pub open spec fn middle(screens: LayoutView, screen: Seq<char>) -> (int, int) {
    if screens.contains_key(screen) {
        let size = screens[screen].size;
        (layout::half(size.w as int), layout::half(size.h as int))
    } else {
        (0, 0)
    }
}

/// The state at the start: the cursor is in the middle of the local screen.
pub open spec fn initial(screens: LayoutView, local_screen: Seq<char>) -> ServerState {
    ServerState {
        layout: screens,
        local_screen,
        active: local_screen,
        cursor_x: middle(screens, local_screen).0,
        cursor_y: middle(screens, local_screen).1,
        modifiers: 0,
        seq: 0,
        locked: false,
    }
}

/// The message that forwards an event other than a motion.
pub open spec fn forwarding(ev: LocalEvent) -> MessageView {
    match ev {
        LocalEvent::Button { button, pressed } => if pressed {
            MessageView::MouseDown { button }
        } else {
            MessageView::MouseUp { button }
        },
        LocalEvent::Wheel { x, y } => MessageView::MouseWheel { x, y },
        LocalEvent::Key { id, mask, button, action } => match action {
            KeyAction::Down => MessageView::KeyDown { id, mask, button },
            KeyAction::Up => MessageView::KeyUp { id, mask, button },
            KeyAction::Repeat(count) => MessageView::KeyRepeat { id, mask, count, button },
        },
        _ => MessageView::NoOp,
    }
}

impl ServerState {
    /// Whether the cursor is on a remote screen.
    pub open spec fn remote(self) -> bool {
        self.active != self.local_screen
    }

    /// The crossing that the cursor makes at a position.
    pub open spec fn crossing(self, x: int, y: int) -> Option<layout::CrossingView> {
        if self.locked {
            None
        } else {
            layout::crossing(self.layout, self.active, x, y)
        }
    }

    /// The state once an event has been taken into account among the held modifiers: those that the
    /// event reports, with the transition of the key itself.
    pub open spec fn tracking(self, ev: LocalEvent) -> ServerState {
        match ev {
            LocalEvent::Key { id, mask, action, .. } => {
                let bit = modifier_of(id);
                let modifiers = match action {
                    KeyAction::Down => if bit != 0 {
                        mask | bit
                    } else {
                        mask
                    },
                    KeyAction::Up => if bit != 0 {
                        mask & !bit
                    } else {
                        mask
                    },
                    KeyAction::Repeat(_) => mask,
                };
                ServerState { modifiers, ..self }
            },
            _ => self,
        }
    }

    /// The state once the cursor has moved to `(x, y)` in the coordinates of the active screen.
    pub open spec fn moved(self, x: int, y: int) -> ServerState {
        match self.crossing(x, y) {
            None => if self.remote() {
                let at = layout::clamped_to(self.layout, self.active, x, y);
                ServerState { cursor_x: at.0, cursor_y: at.1, ..self }
            } else {
                ServerState { cursor_x: x, cursor_y: y, ..self }
            },
            Some(c) => ServerState {
                active: c.to,
                cursor_x: c.entry_x,
                cursor_y: c.entry_y,
                seq: if c.to == self.local_screen {
                    self.seq
                } else {
                    self.seq.wrapping_add(1)
                },
                ..self
            },
        }
    }

    /// The actions that a move of the cursor to `(x, y)` asks for. A move on a remote screen is
    /// forwarded. A crossing takes leave of the remote screen that it leaves, enters the remote
    /// screen that it comes to, and turns the grab on or off as control leaves or comes home.
    pub open spec fn moving(self, x: int, y: int) -> Seq<ServerActionView> {
        match self.crossing(x, y) {
            None => if self.remote() {
                let at = layout::clamped_to(self.layout, self.active, x, y);
                seq![
                    ServerActionView::Send {
                        screen: self.active,
                        msg: MessageView::MouseMove { x: at.0 as i16, y: at.1 as i16 },
                    },
                ]
            } else {
                Seq::empty()
            },
            Some(c) => {
                let leave = if self.remote() {
                    seq![ServerActionView::Send { screen: self.active, msg: MessageView::Leave }]
                } else {
                    Seq::empty()
                };
                let arrive = if c.to == self.local_screen {
                    seq![
                        ServerActionView::SetGrab(false),
                        ServerActionView::WarpCursor { x: c.entry_x, y: c.entry_y },
                    ]
                } else {
                    let grab = if self.remote() {
                        Seq::empty()
                    } else {
                        seq![ServerActionView::SetGrab(true)]
                    };
                    grab.push(
                        ServerActionView::Send {
                            screen: c.to,
                            msg: MessageView::Enter {
                                x: c.entry_x as i16,
                                y: c.entry_y as i16,
                                seq: self.seq.wrapping_add(1),
                                modifiers: self.modifiers,
                            },
                        },
                    )
                };
                (leave + arrive).push(ServerActionView::ActiveChanged { screen: c.to })
            },
        }
    }

    /// The state after an event.
    pub open spec fn after(self, ev: LocalEvent) -> ServerState {
        match self.target(ev) {
            Some(at) => self.moved(at.0, at.1),
            None => self.tracking(ev),
        }
    }

    /// The actions that an event asks for. Absolute motion is ignored while a remote screen is
    /// active, and everything but motion is left to the OS while the local one is.
    pub open spec fn reaction(self, ev: LocalEvent) -> Seq<ServerActionView> {
        match self.target(ev) {
            Some(at) => self.moving(at.0, at.1),
            None => if self.remote() && !(ev is MotionAbs) {
                seq![ServerActionView::Send { screen: self.active, msg: forwarding(ev) }]
            } else {
                Seq::empty()
            },
        }
    }

    /// Where an event takes the cursor, in the coordinates of the active screen, if it is a motion
    /// that counts.
    pub open spec fn target(self, ev: LocalEvent) -> Option<(int, int)> {
        match ev {
            LocalEvent::MotionAbs { x, y } => if self.remote() {
                None
            } else {
                Some((x as int, y as int))
            },
            LocalEvent::MotionRel { dx, dy } => Some((self.cursor_x + dx, self.cursor_y + dy)),
            _ => None,
        }
    }

    /// Whether the cursor can move to `(x, y)` without overflow.
    pub open spec fn can_move(self, x: int, y: int) -> bool {
        &&& i32::MIN <= x <= i32::MAX
        &&& i32::MIN <= y <= i32::MAX
        &&& match self.crossing(x, y) {
            Some(_) => layout::can_cross(self.layout, self.active, x, y),
            None => self.remote() ==> layout::can_clamp(self.layout, self.active),
        }
    }

    /// Whether an event can be taken without overflow.
    pub open spec fn can_take(self, ev: LocalEvent) -> bool {
        self.target(ev) matches Some(at) ==> self.can_move(at.0, at.1)
    }

    /// The state with the lock on or off.
    pub open spec fn with_lock(self, locked: bool) -> ServerState {
        ServerState { locked, ..self }
    }

    /// The state with another layout. Control is on the local screen.
    pub open spec fn relaid(self, layout: LayoutView) -> ServerState {
        ServerState { layout, active: self.local_screen, ..self }
    }

    /// The state once control is back on the local screen.
    pub open spec fn home(self) -> ServerState {
        if self.remote() {
            let at = middle(self.layout, self.local_screen);
            ServerState { active: self.local_screen, cursor_x: at.0, cursor_y: at.1, ..self }
        } else {
            self
        }
    }

    /// The actions that bring control back to the local screen.
    pub open spec fn homing(self) -> Seq<ServerActionView> {
        if self.remote() {
            let at = middle(self.layout, self.local_screen);
            seq![
                ServerActionView::SetGrab(false),
                ServerActionView::WarpCursor { x: at.0, y: at.1 },
                ServerActionView::ActiveChanged { screen: self.local_screen },
            ]
        } else {
            Seq::empty()
        }
    }
}

fn middle_of(screens: &ScreenLayout, screen: &str) -> (p: (i32, i32))
    ensures
        (p.0 as int, p.1 as int) == middle(screens@, screen@),
{
    match screens.size_of(screen) {
        Some(s) => (s.w / 2, s.h / 2),
        None => (0, 0),
    }
}

impl ServerMachine {
    /// Create a machine whose cursor starts at the centre of the local screen.
    pub fn new(layout: ScreenLayout, local_screen: &str) -> (m: Self)
        ensures
            m@ == initial(layout@, local_screen@),
    {
        let (cx, cy): (i32, i32) = middle_of(&layout, local_screen);
        Self {
            layout,
            active: local_screen.to_string(),
            local_screen: local_screen.to_string(),
            cursor_x: cx,
            cursor_y: cy,
            modifiers: 0,
            seq: 0,
            switch_locked: false,
        }
    }

    pub fn is_locked(&self) -> (locked: bool)
        ensures
            locked == self@.locked,
    {
        self.switch_locked
    }

    pub fn set_lock(&mut self, locked: bool)
        ensures
            final(self)@ == old(self)@.with_lock(locked),
    {
        self.switch_locked = locked;
    }

    /// Toggle the screen lock; returns the new state.
    pub fn toggle_lock(&mut self) -> (locked: bool)
        ensures
            locked == !old(self)@.locked,
            final(self)@ == old(self)@.with_lock(locked),
    {
        self.switch_locked = !self.switch_locked;
        self.switch_locked
    }

    pub fn active_screen(&self) -> (screen: &str)
        ensures
            screen@ == self@.active,
    {
        self.active.as_str()
    }

    /// True while the cursor is on a remote screen (local input is grabbed and forwarded rather
    /// than acted on locally).
    pub fn is_remote(&self) -> (remote: bool)
        ensures
            remote == self@.remote(),
    {
        !same_text(self.active.as_str(), self.local_screen.as_str())
    }

    pub fn layout(&self) -> (layout: &ScreenLayout)
        ensures
            layout@ == self@.layout,
    {
        &self.layout
    }

    /// Replace the layout at runtime (the user edited it). Resets control to the local screen to
    /// avoid dangling on a screen that vanished.
    pub fn set_layout(&mut self, layout: ScreenLayout)
        ensures
            final(self)@ == old(self)@.relaid(layout@),
    {
        self.layout = layout;
        self.active = self.local_screen.clone();
    }

    /// Force control back to the local screen, releasing any grab. Used when the active client
    /// disconnects, so that the operator is never stranded on a dead screen. Returns the actions
    /// needed to settle that transition.
    pub fn go_home(&mut self) -> (actions: Vec<ServerAction>)
        ensures
            final(self)@ == old(self)@.home(),
            action_views(actions@) == old(self)@.homing(),
    {
        if !self.is_remote() {
            return Vec::new();
        }
        self.active = self.local_screen.clone();
        let (cx, cy): (i32, i32) = middle_of(&self.layout, self.local_screen.as_str());
        self.cursor_x = cx;
        self.cursor_y = cy;
        vec![
            ServerAction::SetGrab(false),
            ServerAction::WarpCursor { x: cx, y: cy },
            ServerAction::ActiveChanged { screen: self.local_screen.clone() },
        ]
    }

    /// Whether [`ServerMachine::handle`] can take an event.
    pub fn can_handle(&self, ev: &LocalEvent) -> (ok: bool)
        ensures
            ok == self@.can_take(*ev),
    {
        match ev {
            LocalEvent::MotionAbs { x, y } => self.is_remote() || self.can_move(*x, *y),
            LocalEvent::MotionRel { dx, dy } => match (
                self.cursor_x.checked_add(*dx),
                self.cursor_y.checked_add(*dy),
            ) {
                (Some(x), Some(y)) => self.can_move(x, y),
                _ => false,
            },
            _ => true,
        }
    }

    fn can_move(&self, x: i32, y: i32) -> (ok: bool)
        ensures
            ok == self@.can_move(x as int, y as int),
    {
        let active = self.active.as_str();
        if self.switch_locked {
            return !self.is_remote() || self.layout.can_clamp_to(active);
        }
        if !self.layout.can_detect_crossing(active, x, y) {
            return false;
        }
        self.layout.detect_crossing(active, x, y).is_some() || !self.is_remote()
            || self.layout.can_clamp_to(active)
    }

    /// Drive the machine with one captured event.
    pub fn handle(&mut self, ev: LocalEvent) -> (actions: Vec<ServerAction>)
        requires
            old(self)@.can_take(ev),
        ensures
            final(self)@ == old(self)@.after(ev),
            action_views(actions@) == old(self)@.reaction(ev),
    {
        self.track_modifiers(&ev);
        if self.is_remote() {
            self.handle_remote(ev)
        } else {
            self.handle_local(ev)
        }
    }

    fn handle_local(&mut self, ev: LocalEvent) -> (actions: Vec<ServerAction>)
        requires
            !old(self)@.remote(),
            old(self)@.can_take(ev),
        ensures
            final(self)@ == match old(self)@.target(ev) {
                Some(at) => old(self)@.moved(at.0, at.1),
                None => old(self)@,
            },
            action_views(actions@) == old(self)@.reaction(ev),
    {
        match ev {
            LocalEvent::MotionAbs { x, y } => self.try_cross(x, y),
            // Some backends only produce deltas.
            LocalEvent::MotionRel { dx, dy } => {
                let x: i32 = self.cursor_x + dx;
                let y: i32 = self.cursor_y + dy;
                self.try_cross(x, y)
            },
            // Buttons, keys and the wheel on the local screen are left for the OS to handle.
            _ => Vec::new(),
        }
    }

    fn handle_remote(&mut self, ev: LocalEvent) -> (actions: Vec<ServerAction>)
        requires
            old(self)@.remote(),
            old(self)@.can_take(ev),
        ensures
            final(self)@ == match old(self)@.target(ev) {
                Some(at) => old(self)@.moved(at.0, at.1),
                None => old(self)@,
            },
            action_views(actions@) == old(self)@.reaction(ev),
    {
        match ev {
            LocalEvent::MotionRel { dx, dy } => {
                let x: i32 = self.cursor_x + dx;
                let y: i32 = self.cursor_y + dy;
                self.try_cross(x, y)
            },
            // The virtual cursor is tracked from deltas. A stray absolute event can occur right
            // after the grab.
            LocalEvent::MotionAbs { .. } => Vec::new(),
            LocalEvent::Button { button, pressed } => {
                let msg = if pressed {
                    Message::MouseDown { button }
                } else {
                    Message::MouseUp { button }
                };
                self.send_active(msg)
            },
            LocalEvent::Wheel { x, y } => self.send_active(Message::MouseWheel { x, y }),
            LocalEvent::Key { id, mask, button, action } => {
                let msg = match action {
                    KeyAction::Down => Message::KeyDown { id, mask, button },
                    KeyAction::Up => Message::KeyUp { id, mask, button },
                    KeyAction::Repeat(count) => Message::KeyRepeat { id, mask, count, button },
                };
                self.send_active(msg)
            },
        }
    }

    /// Move the virtual cursor to `(x, y)`, test it against the screen edges and, depending on
    /// whether it stayed put, returned home, or hopped to another client, produce the right
    /// actions.
    fn try_cross(&mut self, x: i32, y: i32) -> (actions: Vec<ServerAction>)
        requires
            old(self)@.can_move(x as int, y as int),
        ensures
            final(self)@ == old(self)@.moved(x as int, y as int),
            action_views(actions@) == old(self)@.moving(x as int, y as int),
    {
        let crossing = if self.switch_locked {
            None
        } else {
            self.layout.detect_crossing(self.active.as_str(), x, y)
        };
        match crossing {
            None => {
                if self.is_remote() {
                    // Clamp against a neighbour-less edge and forward the move.
                    let (cx, cy): (i32, i32) = self.layout.clamp_to(self.active.as_str(), x, y);
                    self.cursor_x = cx;
                    self.cursor_y = cy;
                    self.send_active(Message::MouseMove { x: cx as i16, y: cy as i16 })
                } else {
                    self.cursor_x = x;
                    self.cursor_y = y;
                    Vec::new()
                }
            },
            Some(crossing) => {
                let leaving_was_local = !self.is_remote();
                let entering = crossing.to;
                let mut actions: Vec<ServerAction> = Vec::new();
                // Leaving a remote screen: tell that client that the cursor is gone.
                if !leaving_was_local {
                    actions.push(
                        ServerAction::Send { screen: self.active.clone(), msg: Message::Leave },
                    );
                }
                self.cursor_x = crossing.entry_x;
                self.cursor_y = crossing.entry_y;
                self.active = entering.clone();
                if same_text(entering.as_str(), self.local_screen.as_str()) {
                    // Control returns to the primary: release the grab and put the real cursor
                    // where it logically re-enters.
                    actions.push(ServerAction::SetGrab(false));
                    actions.push(
                        ServerAction::WarpCursor { x: crossing.entry_x, y: crossing.entry_y },
                    );
                } else {
                    // Entering (or hopping to) a client screen. The grab only needs turning on when
                    // we were local; a hop between clients already holds it.
                    self.seq = self.seq.wrapping_add(1);
                    if leaving_was_local {
                        actions.push(ServerAction::SetGrab(true));
                    }
                    // Enter carries the entry coordinates and the client warps there itself, so no
                    // move is sent as well.
                    actions.push(
                        ServerAction::Send {
                            screen: entering.clone(),
                            msg: Message::Enter {
                                x: crossing.entry_x as i16,
                                y: crossing.entry_y as i16,
                                seq: self.seq,
                                modifiers: self.modifiers,
                            },
                        },
                    );
                }
                actions.push(ServerAction::ActiveChanged { screen: entering });
                actions
            },
        }
    }

    fn send_active(&self, msg: Message) -> (actions: Vec<ServerAction>)
        ensures
            action_views(actions@) == seq![
                ServerActionView::Send { screen: self@.active, msg: msg@ },
            ],
    {
        vec![ServerAction::Send { screen: self.active.clone(), msg }]
    }

    fn track_modifiers(&mut self, ev: &LocalEvent)
        ensures
            final(self)@ == old(self)@.tracking(*ev),
    {
        match ev {
            LocalEvent::Key { id, mask, action, .. } => {
                // Trust the mask that the capture layer computed, but also fold in explicit
                // modifier key transitions, so that Enter carries fresh state.
                self.modifiers = *mask;
                let bit = modifier_bit_for(*id);
                if bit != 0 {
                    match action {
                        KeyAction::Down => self.modifiers = *mask | bit,
                        KeyAction::Up => self.modifiers = *mask & !bit,
                        KeyAction::Repeat(_) => {},
                    }
                }
            },
            _ => {},
        }
    }
}

fn modifier_bit_for(id: KeyId) -> (bit: KeyModifierMask)
    ensures
        bit == modifier_of(id),
{
    if id == key::SHIFT_L || id == key::SHIFT_R {
        modifier::SHIFT
    } else if id == key::CONTROL_L || id == key::CONTROL_R {
        modifier::CONTROL
    } else if id == key::ALT_L {
        modifier::ALT
    } else if id == key::ALT_R {
        modifier::ALT_GR
    } else if id == key::SUPER_L || id == key::SUPER_R {
        modifier::SUPER
    } else if id == key::META_L || id == key::META_R {
        modifier::META
    } else {
        0
    }
}

impl ServerState {
    /// Whether the active screen is the local one or one of the layout.
    pub open spec fn settled(self) -> bool {
        self.remote() ==> self.layout.contains_key(self.active)
    }

    /// Whether the virtual cursor is on the remote screen that is active, if that has an area.
    pub open spec fn on_screen(self) -> bool {
        self.remote() && self.layout.contains_key(self.active)
            && self.layout[self.active].size.positive()
            ==> self.layout[self.active].size.covers(self.cursor_x, self.cursor_y)
    }
}

/// Whether local input is grabbed once some actions have been carried out.
pub open spec fn grabbed(on: bool, actions: Seq<ServerActionView>) -> bool
    decreases actions.len(),
{
    if actions.len() == 0 {
        on
    } else {
        match actions.last() {
            ServerActionView::SetGrab(set) => set,
            _ => grabbed(on, actions.drop_last()),
        }
    }
}

/// Where every screen has an area, the machine takes every event that does not move the cursor out
/// of the range of its coordinates.
pub proof fn lemma_screens_with_areas_take_every_move(state: ServerState, ev: LocalEvent)
    requires
        layout::has_areas(state.layout),
    ensures
        state.can_take(ev) <==> (state.target(ev) matches Some(at) ==> i32::MIN <= at.0 <= i32::MAX
            && i32::MIN <= at.1 <= i32::MAX),
{
}

/// Control never dangles on a screen that is not in the layout.
pub proof fn lemma_active_screen_is_known(state: ServerState, ev: LocalEvent)
    requires
        state.settled(),
    ensures
        state.after(ev).settled(),
        state.home().settled(),
{
}

/// Local input is grabbed exactly while the cursor is on a remote screen.
pub proof fn lemma_grab_follows_control(state: ServerState, ev: LocalEvent)
    ensures
        grabbed(state.remote(), state.reaction(ev)) == state.after(ev).remote(),
        grabbed(state.remote(), state.homing()) == state.home().remote(),
{
    reveal_with_fuel(grabbed, 5);
    assert(state.home().remote() == false);
}

/// While the screen is locked, control stays where it is and nobody is told otherwise: there is at
/// most the one message that forwards the event.
pub proof fn lemma_lock_pins_active_screen(state: ServerState, ev: LocalEvent)
    requires
        state.locked,
    ensures
        state.after(ev).active == state.active,
        state.after(ev).seq == state.seq,
        state.reaction(ev).len() <= 1,
        forall|i: int|
            0 <= i < state.reaction(ev).len() ==> ((#[trigger] state.reaction(
                ev,
            )[i]) matches ServerActionView::Send { screen, msg } && screen == state.active && !(
            msg is Enter) && !(msg is Leave)),
{
}

/// Every `Enter` carries a sequence number one above the one before, and nothing else uses one up.
pub proof fn lemma_enters_are_numbered(state: ServerState, ev: LocalEvent)
    ensures
        forall|i: int|
            0 <= i < state.reaction(ev).len() ==> ((#[trigger] state.reaction(
                ev,
            )[i]) matches ServerActionView::Send {
                screen,
                msg: MessageView::Enter { seq, .. },
            } ==> seq == state.seq.wrapping_add(1) && state.after(ev).seq == seq && screen
                == state.after(ev).active),
        (forall|i: int|
            0 <= i < state.reaction(ev).len() ==> !((#[trigger] state.reaction(
                ev,
            )[i]) matches ServerActionView::Send { msg: MessageView::Enter { .. }, .. }))
            ==> state.after(ev).seq == state.seq,
{
    if state.after(ev).seq != state.seq {
        let entered = state.reaction(ev)[state.reaction(ev).len() - 2];
        assert(entered matches ServerActionView::Send { msg: MessageView::Enter { .. }, .. });
    }
}

/// The virtual cursor never runs off the remote screen that it is on.
pub proof fn lemma_cursor_stays_on_screen(state: ServerState, ev: LocalEvent)
    requires
        state.on_screen(),
    ensures
        state.after(ev).on_screen(),
        state.home().on_screen(),
{
    match state.target(ev) {
        Some(at) => match state.crossing(at.0, at.1) {
            Some(c) => if state.layout[c.to].size.positive() {
                layout::lemma_entry_is_on_target(state.layout, state.active, at.0, at.1);
            },
            None => {},
        },
        None => {},
    }
}

/// Messages only go to remote screens: the one that is active before the event, or after it.
pub proof fn lemma_messages_go_to_remote_screens(state: ServerState, ev: LocalEvent, i: int)
    requires
        0 <= i < state.reaction(ev).len(),
        state.reaction(ev)[i] is Send,
    ensures
        state.reaction(ev)[i]->Send_screen != state.local_screen,
        state.reaction(ev)[i]->Send_screen == state.active || state.reaction(ev)[i]->Send_screen
            == state.after(ev).active,
{
}

/// A modifier key that goes down is among the held modifiers, and one that goes up is not.
pub proof fn lemma_modifier_keys_are_tracked(
    state: ServerState,
    id: KeyId,
    mask: KeyModifierMask,
    button: u16,
)
    requires
        modifier_of(id) != 0,
    ensures
        state.after(
            LocalEvent::Key { id, mask, button, action: KeyAction::Down },
        ).modifiers & modifier_of(id) == modifier_of(id),
        state.after(
            LocalEvent::Key { id, mask, button, action: KeyAction::Up },
        ).modifiers & modifier_of(id) == 0,
{
    let bit = modifier_of(id);
    assert((mask | bit) & bit == bit) by (bit_vector);
    assert((mask & !bit) & bit == 0) by (bit_vector);
}

/// Where a motion that does not cross leads, along one axis of a screen: to its goal, or to the end
/// of the screen that lies nearest to it. A screen without an extent only has the origin.
pub open spec fn arrives(at: int, goal: int, extent: int) -> bool {
    if extent <= 0 {
        at == 0
    } else if goal < 0 {
        at == 0
    } else if goal >= extent {
        at == extent - 1
    } else {
        at == goal
    }
}

/// On a remote screen, locked or not, a relative motion that does not cross leaves the virtual
/// cursor at its goal, or at the nearest point of the screen, and the client is told exactly that.
/// Nothing else changes.
pub proof fn lemma_remote_motion_leads_to_its_goal(state: ServerState, dx: i32, dy: i32)
    requires
        state.active != state.local_screen,
        state.locked || layout::crossing(
            state.layout,
            state.active,
            state.cursor_x + dx,
            state.cursor_y + dy,
        ) is None,
    ensures
        ({
            let after = state.after(LocalEvent::MotionRel { dx, dy });
            let (x, y) = (state.cursor_x + dx, state.cursor_y + dy);
            let size = state.layout[state.active].size;
            &&& state.layout.contains_key(state.active) ==> arrives(
                after.cursor_x,
                x,
                size.w as int,
            ) && arrives(after.cursor_y, y, size.h as int)
            &&& !state.layout.contains_key(state.active) ==> after.cursor_x == x && after.cursor_y
                == y
            &&& after == (ServerState {
                cursor_x: after.cursor_x,
                cursor_y: after.cursor_y,
                ..state
            })
            &&& state.reaction(LocalEvent::MotionRel { dx, dy }) == seq![
                ServerActionView::Send {
                    screen: state.active,
                    msg: MessageView::MouseMove {
                        x: after.cursor_x as i16,
                        y: after.cursor_y as i16,
                    },
                },
            ]
        }),
{
}

/// On a remote screen that is locked, or that the goal lies on, there is no crossing: the motion
/// leads to its goal.
pub proof fn lemma_motion_within_the_screen_is_exact(state: ServerState, dx: i32, dy: i32)
    requires
        state.active != state.local_screen,
        state.layout.contains_key(state.active),
        0 <= state.cursor_x + dx < state.layout[state.active].size.w,
        0 <= state.cursor_y + dy < state.layout[state.active].size.h,
    ensures
        ({
            let after = state.after(LocalEvent::MotionRel { dx, dy });
            &&& after.active == state.active
            &&& after.cursor_x == state.cursor_x + dx
            &&& after.cursor_y == state.cursor_y + dy
        }),
{
}

/// Motions on a remote screen add up: two that stay on it lead where their sum leads.
pub proof fn lemma_motions_add_up(state: ServerState, dx: i32, dy: i32, ex: i32, ey: i32)
    requires
        state.active != state.local_screen,
        state.layout.contains_key(state.active),
        0 <= state.cursor_x + dx < state.layout[state.active].size.w,
        0 <= state.cursor_y + dy < state.layout[state.active].size.h,
        0 <= state.cursor_x + dx + ex < state.layout[state.active].size.w,
        0 <= state.cursor_y + dy + ey < state.layout[state.active].size.h,
        i32::MIN <= dx + ex <= i32::MAX,
        i32::MIN <= dy + ey <= i32::MAX,
    ensures
        state.after(LocalEvent::MotionRel { dx, dy }).after(
            LocalEvent::MotionRel { dx: ex, dy: ey },
        ) == state.after(
            LocalEvent::MotionRel { dx: (dx + ex) as i32, dy: (dy + ey) as i32 },
        ),
{
}

/// On the local screen, a motion that does not cross only notes where the cursor is: at the
/// position that is reported, or as far from the last one as the motion goes. Nothing is asked
/// for.
pub proof fn lemma_local_motion_is_noted(state: ServerState, ev: LocalEvent, x: int, y: int)
    requires
        state.active == state.local_screen,
        match ev {
            LocalEvent::MotionAbs { x: ax, y: ay } => x == ax && y == ay,
            LocalEvent::MotionRel { dx, dy } => x == state.cursor_x + dx && y == state.cursor_y
                + dy,
            _ => false,
        },
        state.locked || layout::crossing(state.layout, state.active, x, y) is None,
    ensures
        state.after(ev) == (ServerState { cursor_x: x, cursor_y: y, ..state }),
        state.reaction(ev).len() == 0,
{
}

/// An absolute motion while a remote screen is active changes nothing and asks for nothing.
pub proof fn lemma_stray_motion_is_ignored(state: ServerState, x: i32, y: i32)
    requires
        state.active != state.local_screen,
    ensures
        state.after(LocalEvent::MotionAbs { x, y }) == state,
        state.reaction(LocalEvent::MotionAbs { x, y }).len() == 0,
{
}

/// An unlocked motion that crosses moves control to the screen it comes to, at the entry point,
/// and each side is told what concerns it: a remote screen that is left gets a `Leave` first, and
/// one that is entered an `Enter` with the entry point, the next number and the held modifiers.
/// The grab is turned on when control leaves the local screen, and off, with the cursor put where
/// it enters, when it comes back. The last thing is the news of the active screen.
pub proof fn lemma_crossing_moves_control(state: ServerState, ev: LocalEvent, x: int, y: int)
    requires
        !state.locked,
        match ev {
            LocalEvent::MotionAbs { x: ax, y: ay } => state.active == state.local_screen && x == ax
                && y == ay,
            LocalEvent::MotionRel { dx, dy } => x == state.cursor_x + dx && y == state.cursor_y
                + dy,
            _ => false,
        },
        layout::crossing(state.layout, state.active, x, y) is Some,
    ensures
        ({
            let c = layout::crossing(state.layout, state.active, x, y)->0;
            let after = state.after(ev);
            let told = state.reaction(ev);
            let n = told.len() as int;
            let from_remote = state.active != state.local_screen;
            let to_remote = c.to != state.local_screen;
            &&& after.active == c.to
            &&& after.cursor_x == c.entry_x
            &&& after.cursor_y == c.entry_y
            &&& after.seq as int == if to_remote {
                (state.seq + 1) % 0x1_0000_0000
            } else {
                state.seq as int
            }
            &&& after.layout == state.layout
            &&& after.local_screen == state.local_screen
            &&& after.modifiers == state.modifiers
            &&& after.locked == state.locked
            &&& n == if from_remote && !to_remote {
                4int
            } else {
                3int
            }
            &&& told[n - 1] == (ServerActionView::ActiveChanged { screen: c.to })
            &&& from_remote ==> told[0] == (ServerActionView::Send {
                screen: state.active,
                msg: MessageView::Leave,
            })
            &&& to_remote ==> told[n - 2] == (ServerActionView::Send {
                screen: c.to,
                msg: MessageView::Enter {
                    x: c.entry_x as i16,
                    y: c.entry_y as i16,
                    seq: after.seq,
                    modifiers: state.modifiers,
                },
            })
            &&& !from_remote && to_remote ==> told[0] == ServerActionView::SetGrab(true)
            &&& !to_remote ==> told[n - 3] == ServerActionView::SetGrab(false) && told[n - 2] == (
            ServerActionView::WarpCursor { x: c.entry_x, y: c.entry_y })
        }),
{
}

/// While a remote screen is active, every button, wheel and key event goes to it in one message of
/// its kind, with all that the event holds. While the local one is, nothing is asked for.
pub proof fn lemma_events_are_forwarded_whole(state: ServerState, ev: LocalEvent)
    requires
        !(ev is MotionAbs) && !(ev is MotionRel),
    ensures
        state.active == state.local_screen ==> state.reaction(ev).len() == 0,
        state.active != state.local_screen ==> {
            &&& state.reaction(ev).len() == 1
            &&& state.reaction(ev)[0] matches ServerActionView::Send { screen, msg }
            &&& screen == state.active
            &&& match ev {
                LocalEvent::Button { button, pressed: true } => msg == (MessageView::MouseDown {
                    button,
                }),
                LocalEvent::Button { button, pressed: false } => msg == (MessageView::MouseUp {
                    button,
                }),
                LocalEvent::Wheel { x, y } => msg == (MessageView::MouseWheel { x, y }),
                LocalEvent::Key { id, mask, button, action: KeyAction::Down } => msg == (
                MessageView::KeyDown { id, mask, button }),
                LocalEvent::Key { id, mask, button, action: KeyAction::Up } => msg == (
                MessageView::KeyUp { id, mask, button }),
                LocalEvent::Key { id, mask, button, action: KeyAction::Repeat(count) } => msg == (
                MessageView::KeyRepeat { id, mask, count, button }),
                _ => false,
            }
        },
{
}

/// An event other than a motion changes nothing but the held modifiers, and only a key does that.
pub proof fn lemma_events_leave_the_cursor(state: ServerState, ev: LocalEvent)
    requires
        !(ev is MotionAbs) && !(ev is MotionRel),
    ensures
        state.after(ev) == (ServerState { modifiers: state.after(ev).modifiers, ..state }),
        !(ev is Key) ==> state.after(ev) == state,
{
}

/// The held modifiers are those that a key event reports, but for the modifier of the key itself:
/// that is held after its press and not after its release. A key that is no modifier, or that
/// repeats, leaves what is reported. The modifier keys are known by their X11 keysyms, less
/// `0x1000`.
pub proof fn lemma_held_modifiers_follow_the_keys(
    state: ServerState,
    id: KeyId,
    mask: KeyModifierMask,
    button: u16,
    action: KeyAction,
)
    ensures
        ({
            let held = state.after(LocalEvent::Key { id, mask, button, action }).modifiers;
            let keysym = id + 0x1000;
            let bit: KeyModifierMask = if keysym == 0xFFE1 || keysym == 0xFFE2 {
                0x01
            } else if keysym == 0xFFE3 || keysym == 0xFFE4 {
                0x02
            } else if keysym == 0xFFE9 {
                0x04
            } else if keysym == 0xFFEA {
                0x20
            } else if keysym == 0xFFEB || keysym == 0xFFEC {
                0x10
            } else if keysym == 0xFFE7 || keysym == 0xFFE8 {
                0x08
            } else {
                0x00
            };
            &&& held & !bit == mask & !bit
            &&& action is Down ==> held & bit == bit
            &&& action is Up ==> held & bit == 0
            &&& action is Repeat ==> held == mask
        }),
{
    let bit = modifier_of(id);
    assert((mask | bit) & bit == bit) by (bit_vector);
    assert((mask & !bit) & bit == 0) by (bit_vector);
    assert((mask | bit) & !bit == mask & !bit) by (bit_vector);
    assert((mask & !bit) & !bit == mask & !bit) by (bit_vector);
    assert(mask & 0 == 0) by (bit_vector);
}

/// Whether a place is in the middle of an axis, and on the side of its beginning if there is no
/// exact one.
pub open spec fn midway(at: int, extent: int) -> bool {
    if extent >= 0 {
        2 * at <= extent <= 2 * at + 1
    } else {
        extent <= 2 * at <= extent + 1
    }
}

/// The cursor starts in the middle of the local screen, and control is there: nothing is held,
/// numbered or locked. A screen that is not there only has the origin.
pub proof fn lemma_starts_in_the_middle(screens: LayoutView, local_screen: Seq<char>)
    ensures
        ({
            let start = initial(screens, local_screen);
            let size = screens[local_screen].size;
            &&& start.active == local_screen
            &&& start.local_screen == local_screen
            &&& start.layout == screens
            &&& start.modifiers == 0
            &&& start.seq == 0
            &&& !start.locked
            &&& screens.contains_key(local_screen) ==> {
                &&& midway(start.cursor_x, size.w as int)
                &&& midway(start.cursor_y, size.h as int)
            }
            &&& !screens.contains_key(local_screen) ==> start.cursor_x == 0 && start.cursor_y == 0
        }),
{
}

/// Going home puts control and the cursor in the middle of the local screen, releases the grab
/// first, warps the cursor there, and tells of the active screen last. At home it does nothing.
pub proof fn lemma_home_is_the_middle(state: ServerState)
    ensures
        ({
            let home = state.home();
            let told = state.homing();
            let size = state.layout[state.local_screen].size;
            let known = state.layout.contains_key(state.local_screen);
            if state.active == state.local_screen {
                home == state && told.len() == 0
            } else {
                &&& home == (ServerState {
                    active: state.local_screen,
                    cursor_x: home.cursor_x,
                    cursor_y: home.cursor_y,
                    ..state
                })
                &&& known ==> {
                    &&& midway(home.cursor_x, size.w as int)
                    &&& midway(home.cursor_y, size.h as int)
                }
                &&& !known ==> home.cursor_x == 0 && home.cursor_y == 0
                &&& told.len() == 3
                &&& told[0] == ServerActionView::SetGrab(false)
                &&& told[1] == (ServerActionView::WarpCursor {
                    x: home.cursor_x,
                    y: home.cursor_y,
                })
                &&& told[2] == (ServerActionView::ActiveChanged { screen: state.local_screen })
            }
        }),
{
}

/// Locking and unlocking changes nothing else. A new layout brings control to the local screen and
/// leaves the rest: the cursor's place, the modifiers, the number of the last `Enter` and the lock.
pub proof fn lemma_settings_change_one_thing(
    state: ServerState,
    locked: bool,
    screens: LayoutView,
)
    ensures
        state.with_lock(locked).locked == locked,
        state.with_lock(locked).with_lock(state.locked) == state,
        ({
            let after = state.relaid(screens);
            &&& after.layout == screens
            &&& after.active == state.local_screen
            &&& after.local_screen == state.local_screen
            &&& after.cursor_x == state.cursor_x
            &&& after.cursor_y == state.cursor_y
            &&& after.modifiers == state.modifiers
            &&& after.seq == state.seq
            &&& after.locked == state.locked
        }),
{
}

/// Buttons, keys, the wheel and stray motions are always taken. A motion is taken if the cursor's
/// coordinates do not run out of range and every screen has an area.
pub proof fn lemma_usual_input_is_taken(state: ServerState, ev: LocalEvent)
    ensures
        !(ev is MotionAbs) && !(ev is MotionRel) ==> state.can_take(ev),
        ev is MotionAbs && state.active != state.local_screen ==> state.can_take(ev),
        (forall|s: Seq<char>| #[trigger]
            state.layout.contains_key(s) ==> state.layout[s].size.w > 0 && state.layout[s].size.h
                > 0) ==> {
            &&& ev is MotionAbs ==> state.can_take(ev)
            &&& ev matches LocalEvent::MotionRel { dx, dy } ==> (state.can_take(ev) <==> i32::MIN
                <= state.cursor_x + dx <= i32::MAX && i32::MIN <= state.cursor_y + dy <= i32::MAX)
        },
{
}

} // verus!
