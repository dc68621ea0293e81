//! The server's controller.
//!
//! [`ServerController`] owns the [`ServerMachine`] and the set of connected clients. It takes the
//! events of a running server one at a time, and answers each with the effects that the runtime
//! must carry out, in order.

use crate::events::LocalEvent;
use crate::layout::ScreenLayout;
use crate::message::{Message, MessageView};
use crate::name_map::NameMap;
use crate::server;
use crate::server::{ServerAction, ServerActionView, ServerMachine, ServerState};
use crate::text;
use crate::text::{same_text, lossy_text};
use vstd::prelude::*;
use vstd::utf8::*;

verus! {

/// Status updates emitted as the server runs (for a GUI or CLI to display).
#[derive(Clone, Debug, PartialEq, Eq)]
pub enum ServerStatus {
    /// The address that the server listens on.
    Listening(String),
    ClientConnected(String),
    ClientDisconnected(String),
    ActiveScreen(String),
    Grab(bool),
}

/// The mathematical value of a [`ServerStatus`].
pub enum StatusView {
    Listening(Seq<char>),
    ClientConnected(Seq<char>),
    ClientDisconnected(Seq<char>),
    ActiveScreen(Seq<char>),
    Grab(bool),
}

impl View for ServerStatus {
    type V = StatusView;

    open spec fn view(&self) -> StatusView {
        match *self {
            ServerStatus::Listening(addr) => StatusView::Listening(addr@),
            ServerStatus::ClientConnected(screen) => StatusView::ClientConnected(screen@),
            ServerStatus::ClientDisconnected(screen) => StatusView::ClientDisconnected(screen@),
            ServerStatus::ActiveScreen(screen) => StatusView::ActiveScreen(screen@),
            ServerStatus::Grab(on) => StatusView::Grab(on),
        }
    }
}

/// Something that happened to the server.
#[derive(Debug)]
pub enum ServerEvent {
    /// Input was captured on this machine.
    Local(LocalEvent),
    /// A client has completed the handshake.
    ClientConnected { screen: String },
    /// A client is gone.
    ClientDisconnected { screen: String },
    /// A client sent a message.
    FromClient { screen: String, msg: Message },
    /// It is time for a keep-alive.
    KeepAliveTick,
    /// The local clipboard changed.
    ClipboardOut(String),
}

/// The mathematical value of a [`ServerEvent`].
pub enum EventView {
    Local(LocalEvent),
    ClientConnected { screen: Seq<char> },
    ClientDisconnected { screen: Seq<char> },
    FromClient { screen: Seq<char>, msg: MessageView },
    KeepAliveTick,
    ClipboardOut(Seq<char>),
}

impl View for ServerEvent {
    type V = EventView;

    open spec fn view(&self) -> EventView {
        match *self {
            ServerEvent::Local(ev) => EventView::Local(ev),
            ServerEvent::ClientConnected { screen } => EventView::ClientConnected {
                screen: screen@,
            },
            ServerEvent::ClientDisconnected { screen } => EventView::ClientDisconnected {
                screen: screen@,
            },
            ServerEvent::FromClient { screen, msg } => EventView::FromClient {
                screen: screen@,
                msg: msg@,
            },
            ServerEvent::KeepAliveTick => EventView::KeepAliveTick,
            ServerEvent::ClipboardOut(text) => EventView::ClipboardOut(text@),
        }
    }
}

/// Something that the runtime must do.
#[derive(Debug, PartialEq, Eq)]
pub enum ServerEffect {
    /// Queue `msg` for the connected client `screen`.
    Deliver { screen: String, msg: Message },
    /// Start or stop grabbing local input.
    SetGrab(bool),
    /// Warp the local cursor.
    WarpCursor { x: i32, y: i32 },
    /// Put a text on the local clipboard.
    SetClipboard(String),
    /// Report a status.
    Report(ServerStatus),
}

/// The mathematical value of a [`ServerEffect`].
pub enum EffectView {
    Deliver { screen: Seq<char>, msg: MessageView },
    SetGrab(bool),
    WarpCursor { x: int, y: int },
    SetClipboard(Seq<char>),
    Report(StatusView),
}

impl View for ServerEffect {
    type V = EffectView;

    open spec fn view(&self) -> EffectView {
        match *self {
            ServerEffect::Deliver { screen, msg } => EffectView::Deliver {
                screen: screen@,
                msg: msg@,
            },
            ServerEffect::SetGrab(on) => EffectView::SetGrab(on),
            ServerEffect::WarpCursor { x, y } => EffectView::WarpCursor {
                x: x as int,
                y: y as int,
            },
            ServerEffect::SetClipboard(text) => EffectView::SetClipboard(text@),
            ServerEffect::Report(status) => EffectView::Report(status@),
        }
    }
}

/// The values of some effects.
pub open spec fn effect_views(effects: Seq<ServerEffect>) -> Seq<EffectView> {
    effects.map_values(|e: ServerEffect| e@)
}

/// The mathematical value of a [`ServerController`]: the machine, the connected clients in the
/// order in which they came, and the number of clipboard changes announced so far.
pub struct ControllerState {
    pub machine: ServerState,
    pub clients: Seq<Seq<char>>,
    pub clip_seq: u32,
}

/// The effects of one action of the machine. A message for a client that is not connected is
/// dropped.
pub open spec fn dispatched(action: ServerActionView, clients: Seq<Seq<char>>) -> Seq<EffectView> {
    match action {
        ServerActionView::Send { screen, msg } => if clients.contains(screen) {
            seq![EffectView::Deliver { screen, msg }]
        } else {
            Seq::empty()
        },
        ServerActionView::SetGrab(on) => seq![
            EffectView::SetGrab(on),
            EffectView::Report(StatusView::Grab(on)),
        ],
        ServerActionView::WarpCursor { x, y } => seq![EffectView::WarpCursor { x, y }],
        ServerActionView::ActiveChanged { screen } => seq![
            EffectView::Report(StatusView::ActiveScreen(screen)),
        ],
    }
}

/// The effects of some actions, one after the other.
pub open spec fn all_dispatched(
    actions: Seq<ServerActionView>,
    clients: Seq<Seq<char>>,
) -> Seq<EffectView>
    decreases actions.len(),
{
    if actions.len() == 0 {
        Seq::empty()
    } else {
        all_dispatched(actions.drop_last(), clients) + dispatched(actions.last(), clients)
    }
}

/// The delivery of one message to each of some clients.
pub open spec fn broadcast_to(clients: Seq<Seq<char>>, msg: MessageView) -> Seq<EffectView> {
    clients.map_values(|screen: Seq<char>| EffectView::Deliver { screen, msg })
}

/// The message that announces a clipboard change.
pub open spec fn clipboard_message(seq: u32, text: Seq<char>) -> MessageView {
    MessageView::ClipboardData { id: 0, seq, mark: 0, data: encode_utf8(text) }
}

impl ControllerState {
    /// The state after an event.
    pub open spec fn after(self, ev: EventView) -> ControllerState {
        match ev {
            EventView::Local(local) => ControllerState {
                machine: self.machine.after(local),
                ..self
            },
            EventView::ClientConnected { screen } => ControllerState {
                clients: if self.clients.contains(screen) {
                    self.clients
                } else {
                    self.clients.push(screen)
                },
                ..self
            },
            EventView::ClientDisconnected { screen } => ControllerState {
                clients: self.without(screen),
                machine: if self.machine.active == screen {
                    self.machine.home()
                } else {
                    self.machine
                },
                ..self
            },
            EventView::FromClient { .. } => self,
            EventView::KeepAliveTick => self,
            EventView::ClipboardOut(_) => ControllerState {
                clip_seq: self.clip_seq.wrapping_add(1),
                ..self
            },
        }
    }

    /// The clients but for one.
    pub open spec fn without(self, screen: Seq<char>) -> Seq<Seq<char>> {
        if self.clients.contains(screen) {
            self.clients.remove(self.clients.index_of(screen))
        } else {
            self.clients
        }
    }

    /// The effects of an event, in order.
    pub open spec fn effects(self, ev: EventView) -> Seq<EffectView> {
        match ev {
            EventView::Local(local) => all_dispatched(self.machine.reaction(local), self.clients),
            EventView::ClientConnected { screen } => seq![
                EffectView::Report(StatusView::ClientConnected(screen)),
            ],
            EventView::ClientDisconnected { screen } => {
                let homing = if self.machine.active == screen {
                    all_dispatched(self.machine.homing(), self.without(screen))
                } else {
                    Seq::empty()
                };
                homing.push(EffectView::Report(StatusView::ClientDisconnected(screen)))
            },
            EventView::FromClient { msg, .. } => match msg {
                MessageView::ClipboardData { data, .. } => seq![
                    EffectView::SetClipboard(text::utf8_lossy(data)),
                ],
                _ => Seq::empty(),
            },
            EventView::KeepAliveTick => broadcast_to(self.clients, MessageView::KeepAlive),
            EventView::ClipboardOut(text) => broadcast_to(
                self.clients,
                clipboard_message(self.clip_seq.wrapping_add(1), text),
            ),
        }
    }

    /// Whether the machine can take an event.
    pub open spec fn can_take(self, ev: EventView) -> bool {
        ev matches EventView::Local(local) ==> self.machine.can_take(local)
    }
}

/// The single owner of the machine and the client table.
pub struct ServerController {
    machine: ServerMachine,
    clients: NameMap<()>,
    clip_seq: u32,
}

impl View for ServerController {
    type V = ControllerState;

    closed spec fn view(&self) -> ControllerState {
        ControllerState {
            machine: self.machine@,
            clients: self.clients.names(),
            clip_seq: self.clip_seq,
        }
    }
}

impl ServerController {
    /// A controller for a layout without clients.
    pub fn new(layout: ScreenLayout, local_screen: &str) -> (c: Self)
        ensures
            c@.machine == server::initial(layout@, local_screen@),
            c@.clients == Seq::<Seq<char>>::empty(),
            c@.clip_seq == 0,
    {
        ServerController {
            machine: ServerMachine::new(layout, local_screen),
            clients: NameMap::new(),
            clip_seq: 0,
        }
    }

    /// The machine.
    pub fn machine(&self) -> (m: &ServerMachine)
        ensures
            m@ == self@.machine,
    {
        &self.machine
    }

    /// Whether [`ServerController::handle`] can take an event.
    pub fn can_handle(&self, ev: &ServerEvent) -> (ok: bool)
        ensures
            ok == self@.can_take(ev@),
    {
        match ev {
            ServerEvent::Local(local) => self.machine.can_handle(local),
            _ => true,
        }
    }

    /// Take one event, and say what must be done.
    pub fn handle(&mut self, ev: ServerEvent) -> (effects: Vec<ServerEffect>)
        requires
            old(self)@.can_take(ev@),
        ensures
            final(self)@ == old(self)@.after(ev@),
            effect_views(effects@) == old(self)@.effects(ev@),
            // A text from a client's clipboard is put on the local one as it is.
            forall|text: Seq<char>, seq: u32|
                (ev@ matches EventView::FromClient { msg, .. } && msg == #[trigger]
                clipboard_message(seq, text)) ==> effect_views(effects@) == seq![
                    EffectView::SetClipboard(text),
                ],
    {
        match ev {
            ServerEvent::Local(local) => {
                let actions = self.machine.handle(local);
                self.dispatch(actions)
            },
            ServerEvent::ClientConnected { screen } => {
                self.clients.insert(screen.clone(), ());
                vec![ServerEffect::Report(ServerStatus::ClientConnected(screen))]
            },
            ServerEvent::ClientDisconnected { screen } => {
                self.clients.remove(screen.as_str());
                let mut effects = if same_text(self.machine.active_screen(), screen.as_str()) {
                    let actions = self.machine.go_home();
                    self.dispatch(actions)
                } else {
                    Vec::new()
                };
                let ghost before = effect_views(effects@);
                effects.push(ServerEffect::Report(ServerStatus::ClientDisconnected(screen)));
                assert(effect_views(effects@) =~= before.push(
                    EffectView::Report(StatusView::ClientDisconnected(screen@)),
                ));
                effects
            },
            ServerEvent::FromClient { msg, .. } => match msg {
                Message::ClipboardData { data, .. } => vec![
                    ServerEffect::SetClipboard(lossy_text(data.as_slice())),
                ],
                _ => Vec::new(),
            },
            ServerEvent::KeepAliveTick => self.broadcast(Message::KeepAlive),
            ServerEvent::ClipboardOut(text) => {
                self.clip_seq = self.clip_seq.wrapping_add(1);
                self.broadcast(
                    Message::ClipboardData {
                        id: 0,
                        seq: self.clip_seq,
                        mark: 0,
                        data: vstd::slice::slice_to_vec(text.as_str().as_bytes()),
                    },
                )
            },
        }
    }

    /// One message to every client.
    fn broadcast(&self, msg: Message) -> (effects: Vec<ServerEffect>)
        ensures
            effect_views(effects@) == broadcast_to(self@.clients, msg@),
    {
        let mut effects: Vec<ServerEffect> = Vec::new();
        let count = self.clients.len();
        let mut i: usize = 0;
        while i < count
            invariant
                count == self.clients.names().len(),
                i <= count,
                i == effects@.len(),
                forall|k: int|
                    0 <= k < i ==> (#[trigger] effects@[k])@ == (EffectView::Deliver {
                        screen: self.clients.names()[k],
                        msg: msg@,
                    }),
            decreases count - i,
        {
            effects.push(
                ServerEffect::Deliver {
                    screen: self.clients.name_at(i).clone(),
                    msg: msg.clone(),
                },
            );
            i = i + 1;
        }
        effects
    }

    fn dispatch(&self, actions: Vec<ServerAction>) -> (effects: Vec<ServerEffect>)
        ensures
            effect_views(effects@) == all_dispatched(
                server::action_views(actions@),
                self@.clients,
            ),
    {
        let mut effects: Vec<ServerEffect> = Vec::new();
        let ghost all = server::action_views(actions@);
        for action in iter: actions
            invariant
                iter.seq() == actions@,
                all == server::action_views(actions@),
                effect_views(effects@) == all_dispatched(
                    all.take(iter.index() as int),
                    self@.clients,
                ),
        {
            let ghost before = effect_views(effects@);
            let ghost done = all.take(iter.index() as int);
            assert(all.take(iter.index() + 1).drop_last() =~= done);
            assert(all.take(iter.index() + 1).last() == action@);
            match action {
                ServerAction::Send { screen, msg } => {
                    if self.clients.contains_key(screen.as_str()) {
                        effects.push(ServerEffect::Deliver { screen, msg });
                    }
                },
                ServerAction::SetGrab(on) => {
                    effects.push(ServerEffect::SetGrab(on));
                    effects.push(ServerEffect::Report(ServerStatus::Grab(on)));
                },
                ServerAction::WarpCursor { x, y } => {
                    effects.push(ServerEffect::WarpCursor { x, y });
                },
                ServerAction::ActiveChanged { screen } => {
                    effects.push(ServerEffect::Report(ServerStatus::ActiveScreen(screen)));
                },
            }
            assert(effect_views(effects@) =~= before + dispatched(action@, self@.clients));
        }
        assert(all.take(all.len() as int) =~= all);
        effects
    }
}

proof fn lemma_dispatched_deliveries(
    actions: Seq<ServerActionView>,
    clients: Seq<Seq<char>>,
    i: int,
)
    requires
        0 <= i < all_dispatched(actions, clients).len(),
        all_dispatched(actions, clients)[i] is Deliver,
    ensures
        clients.contains(all_dispatched(actions, clients)[i]->Deliver_screen),
    decreases actions.len(),
{
    let before = all_dispatched(actions.drop_last(), clients);
    if i < before.len() {
        lemma_dispatched_deliveries(actions.drop_last(), clients, i);
    }
}

/// Messages are only delivered to clients that are connected.
pub proof fn lemma_deliveries_go_to_connected_clients(
    state: ControllerState,
    ev: EventView,
    i: int,
)
    requires
        0 <= i < state.effects(ev).len(),
        state.effects(ev)[i] is Deliver,
    ensures
        state.clients.contains(state.effects(ev)[i]->Deliver_screen),
{
    match ev {
        EventView::Local(local) => {
            lemma_dispatched_deliveries(state.machine.reaction(local), state.clients, i);
        },
        EventView::ClientDisconnected { screen } => {
            let rest = state.without(screen);
            lemma_dispatched_deliveries(state.machine.homing(), rest, i);
            let to = state.effects(ev)[i]->Deliver_screen;
            let k = rest.index_of(to);
            let gone = state.clients.index_of(screen);
            assert(rest.contains(to));
            if state.clients.contains(screen) {
                assert(state.clients[if k < gone { k } else { k + 1 }] == to);
            }
        },
        EventView::KeepAliveTick => {
            assert(state.clients[i] == state.effects(ev)[i]->Deliver_screen);
        },
        EventView::ClipboardOut(_) => {
            assert(state.clients[i] == state.effects(ev)[i]->Deliver_screen);
        },
        _ => {},
    }
}

/// The operator is never stranded on a dead screen: when the client that holds the cursor goes,
/// control is back on the local screen and the grab is released, before the loss is reported.
pub proof fn lemma_operator_is_never_stranded(state: ControllerState, screen: Seq<char>)
    requires
        state.machine.remote(),
        state.machine.active == screen,
        state.clients.no_duplicates(),
    ensures
        ({
            let ev = EventView::ClientDisconnected { screen };
            &&& !state.after(ev).machine.remote()
            &&& !state.after(ev).clients.contains(screen)
            &&& state.effects(ev).contains(EffectView::SetGrab(false))
            &&& state.effects(ev).last() == EffectView::Report(
                StatusView::ClientDisconnected(screen),
            )
        }),
{
    let ev = EventView::ClientDisconnected { screen };
    reveal_with_fuel(all_dispatched, 4);
    let rest = state.without(screen);
    let homing = all_dispatched(state.machine.homing(), rest);
    assert(state.machine.homing().drop_last().drop_last().drop_last() =~= Seq::empty());
    assert(homing[0] == EffectView::SetGrab(false));
    assert(state.effects(ev)[0] == EffectView::SetGrab(false));
    if rest.contains(screen) {
        let k = rest.index_of(screen);
        let gone = state.clients.index_of(screen);
        if state.clients.contains(screen) {
            assert(state.clients[if k < gone { k } else { k + 1 }] == screen);
        }
    }
}

/// No client is in the table twice.
pub proof fn lemma_clients_stay_distinct(state: ControllerState, ev: EventView)
    requires
        state.clients.no_duplicates(),
    ensures
        state.after(ev).clients.no_duplicates(),
{
}

/// Whether the effects fall into one stretch for each action, in the order of the actions, which
/// `place` bounds. The stretch of a message to a connected client is its delivery, and that of one
/// to anybody else is empty. The grab, the warp and the news of the active screen are passed on,
/// and the grab and the news are reported.
pub open spec fn laid_out(
    effects: Seq<EffectView>,
    actions: Seq<ServerActionView>,
    clients: Seq<Seq<char>>,
    place: Seq<int>,
) -> bool {
    &&& place.len() == actions.len() + 1
    &&& place[0] == 0
    &&& place.last() == effects.len()
    &&& forall|i: int|
        #![trigger actions[i]]
        0 <= i < actions.len() ==> 0 <= place[i] <= place[i + 1] <= effects.len() && {
            let stretch = effects.subrange(place[i], place[i + 1]);
            match actions[i] {
                ServerActionView::Send { screen, msg } => if clients.contains(screen) {
                    stretch.len() == 1 && stretch[0] == (EffectView::Deliver { screen, msg })
                } else {
                    stretch.len() == 0
                },
                ServerActionView::SetGrab(on) => stretch.len() == 2 && stretch[0]
                    == EffectView::SetGrab(on) && stretch[1] == EffectView::Report(
                    StatusView::Grab(on),
                ),
                ServerActionView::WarpCursor { x, y } => stretch.len() == 1 && stretch[0] == (
                EffectView::WarpCursor { x, y }),
                ServerActionView::ActiveChanged { screen } => stretch.len() == 1 && stretch[0]
                    == EffectView::Report(StatusView::ActiveScreen(screen)),
            }
        }
}

proof fn lemma_dispatch_lays_out(
    actions: Seq<ServerActionView>,
    clients: Seq<Seq<char>>,
) -> (place: Seq<int>)
    ensures
        laid_out(all_dispatched(actions, clients), actions, clients, place),
    decreases actions.len(),
{
    let all = all_dispatched(actions, clients);
    if actions.len() == 0 {
        seq![0int]
    } else {
        let front = actions.drop_last();
        let before = all_dispatched(front, clients);
        let earlier = lemma_dispatch_lays_out(front, clients);
        let place = earlier.push(all.len() as int);
        assert forall|i: int|
            #![trigger actions[i]]
            0 <= i < actions.len() implies 0 <= place[i] <= place[i + 1] <= all.len() && {
            let stretch = all.subrange(place[i], place[i + 1]);
            match actions[i] {
                ServerActionView::Send { screen, msg } => if clients.contains(screen) {
                    stretch.len() == 1 && stretch[0] == (EffectView::Deliver { screen, msg })
                } else {
                    stretch.len() == 0
                },
                ServerActionView::SetGrab(on) => stretch.len() == 2 && stretch[0]
                    == EffectView::SetGrab(on) && stretch[1] == EffectView::Report(
                    StatusView::Grab(on),
                ),
                ServerActionView::WarpCursor { x, y } => stretch.len() == 1 && stretch[0] == (
                EffectView::WarpCursor { x, y }),
                ServerActionView::ActiveChanged { screen } => stretch.len() == 1 && stretch[0]
                    == EffectView::Report(StatusView::ActiveScreen(screen)),
            }
        } by {
            if i < front.len() {
                assert(front[i] == actions[i]);
                assert(all.subrange(place[i], place[i + 1]) =~= before.subrange(
                    earlier[i],
                    earlier[i + 1],
                ));
            } else {
                assert(all.subrange(place[i], place[i + 1]) =~= dispatched(actions[i], clients));
            }
        }
        place
    }
}

/// What the machine asks for is done, all of it and in order: every message for a connected client
/// is delivered, every change of the grab and every warp is carried out, and nothing else is.
pub proof fn lemma_actions_are_carried_out(state: ControllerState, ev: LocalEvent)
    ensures
        exists|place: Seq<int>| #[trigger]
            laid_out(
                state.effects(EventView::Local(ev)),
                state.machine.reaction(ev),
                state.clients,
                place,
            ),
        state.after(EventView::Local(ev)).machine == state.machine.after(ev),
        state.after(EventView::Local(ev)).clients == state.clients,
        state.after(EventView::Local(ev)).clip_seq == state.clip_seq,
{
    let place = lemma_dispatch_lays_out(state.machine.reaction(ev), state.clients);
    let effects = state.effects(EventView::Local(ev));
    assert(laid_out(effects, state.machine.reaction(ev), state.clients, place));
}

/// Every message that the machine sends to a connected client is delivered, and two of them in the
/// order in which they were sent.
pub proof fn lemma_messages_are_delivered(state: ControllerState, ev: LocalEvent, i: int, j: int)
    requires
        0 <= i <= j < state.machine.reaction(ev).len(),
        state.machine.reaction(ev)[i] is Send,
        state.machine.reaction(ev)[j] is Send,
        state.clients.contains(state.machine.reaction(ev)[i]->Send_screen),
        state.clients.contains(state.machine.reaction(ev)[j]->Send_screen),
    ensures
        ({
            let effects = state.effects(EventView::Local(ev));
            let first = state.machine.reaction(ev)[i];
            let second = state.machine.reaction(ev)[j];
            exists|k: int, l: int|
                0 <= k <= l < effects.len() && (i < j ==> k < l) && #[trigger] effects[k] == (
                EffectView::Deliver { screen: first->Send_screen, msg: first->Send_msg })
                    && #[trigger] effects[l] == (EffectView::Deliver {
                    screen: second->Send_screen,
                    msg: second->Send_msg,
                })
        }),
        state.effects(EventView::Local(ev)).contains(
            EffectView::Deliver {
                screen: state.machine.reaction(ev)[i]->Send_screen,
                msg: state.machine.reaction(ev)[i]->Send_msg,
            },
        ),
{
    let effects = state.effects(EventView::Local(ev));
    let actions = state.machine.reaction(ev);
    let place = lemma_dispatch_lays_out(actions, state.clients);
    let (k, l) = (place[i], place[j]);
    assert(actions[i] is Send && actions[j] is Send);
    assert(effects.subrange(place[i], place[i + 1])[0] == effects[k]);
    assert(effects.subrange(place[j], place[j + 1])[0] == effects[l]);
    if i < j {
        lemma_places_rise(effects, actions, state.clients, place, i + 1, j);
    }
}

proof fn lemma_places_rise(
    effects: Seq<EffectView>,
    actions: Seq<ServerActionView>,
    clients: Seq<Seq<char>>,
    place: Seq<int>,
    i: int,
    j: int,
)
    requires
        laid_out(effects, actions, clients, place),
        0 <= i <= j < place.len(),
    ensures
        place[i] <= place[j],
    decreases j - i,
{
    if i < j {
        let next = actions[i];
        lemma_places_rise(effects, actions, clients, place, i + 1, j);
    }
}

/// A keep-alive and a clipboard change go to every connected client, once each, in the order in
/// which they came. The clipboard change carries the text in UTF-8, and each has the number after
/// that of the one before.
pub proof fn lemma_broadcasts_reach_everybody(
    state: ControllerState,
    text: Seq<char>,
    k: int,
)
    requires
        0 <= k < state.clients.len(),
    ensures
        ({
            let tick = EventView::KeepAliveTick;
            let copied = EventView::ClipboardOut(text);
            let seq = (state.clip_seq + 1) % 0x1_0000_0000;
            &&& state.effects(tick).len() == state.clients.len()
            &&& state.effects(tick)[k] == (EffectView::Deliver {
                screen: state.clients[k],
                msg: MessageView::KeepAlive,
            })
            &&& state.after(tick) == state
            &&& state.effects(copied).len() == state.clients.len()
            &&& state.effects(copied)[k] == (EffectView::Deliver {
                screen: state.clients[k],
                msg: MessageView::ClipboardData {
                    id: 0,
                    seq: seq as u32,
                    mark: 0,
                    data: encode_utf8(text),
                },
            })
            &&& state.after(copied) == (ControllerState { clip_seq: seq as u32, ..state })
        }),
{
}

/// Where nobody is connected, keep-alives and clipboard changes go nowhere, and the change is still
/// counted.
pub proof fn lemma_broadcasts_need_somebody(state: ControllerState, text: Seq<char>)
    requires
        state.clients.len() == 0,
    ensures
        state.effects(EventView::KeepAliveTick).len() == 0,
        state.effects(EventView::ClipboardOut(text)).len() == 0,
        state.after(EventView::ClipboardOut(text)).clip_seq as int == (state.clip_seq + 1)
            % 0x1_0000_0000,
{
}

/// Of what clients send, clipboard data is put on the local clipboard, whoever it is from and
/// whatever its numbers are, and nothing else has an effect. Nothing changes.
pub proof fn lemma_clients_only_bring_clipboards(
    state: ControllerState,
    screen: Seq<char>,
    msg: MessageView,
)
    ensures
        ({
            let ev = EventView::FromClient { screen, msg };
            &&& state.after(ev) == state
            &&& msg is ClipboardData ==> state.effects(ev).len() == 1 && state.effects(ev)[0]
                == EffectView::SetClipboard(text::utf8_lossy(msg->ClipboardData_data))
            &&& !(msg is ClipboardData) ==> state.effects(ev).len() == 0
        }),
{
}

/// A client that connects is in the table behind all that were, which stay in their order, and this
/// is reported. Nothing else changes.
pub proof fn lemma_connecting_adds_the_client(state: ControllerState, screen: Seq<char>)
    ensures
        ({
            let ev = EventView::ClientConnected { screen };
            let after = state.after(ev);
            &&& after.clients.contains(screen)
            &&& after.clients.take(state.clients.len() as int) == state.clients
            &&& after.clients.len() == state.clients.len() + if state.clients.contains(screen) {
                0int
            } else {
                1int
            }
            &&& after.machine == state.machine
            &&& after.clip_seq == state.clip_seq
            &&& state.effects(ev).len() == 1
            &&& state.effects(ev)[0] == EffectView::Report(StatusView::ClientConnected(screen))
        }),
{
    let after = state.after(EventView::ClientConnected { screen });
    assert(after.clients.take(state.clients.len() as int) =~= state.clients);
    if !state.clients.contains(screen) {
        assert(after.clients[state.clients.len() as int] == screen);
    }
}

/// A client that disconnects is in the table no more, and all others are. Control comes home if it
/// was there, with the grab released and the cursor warped, and stays where it is if not. The loss
/// is reported last.
pub proof fn lemma_disconnecting_removes_the_client(
    state: ControllerState,
    screen: Seq<char>,
    other: Seq<char>,
)
    requires
        state.clients.no_duplicates(),
    ensures
        ({
            let ev = EventView::ClientDisconnected { screen };
            let after = state.after(ev);
            let told = state.effects(ev);
            let stranded = state.machine.active == screen && screen != state.machine.local_screen;
            &&& !after.clients.contains(screen)
            &&& other != screen ==> after.clients.contains(other) == state.clients.contains(other)
            &&& after.clip_seq == state.clip_seq
            &&& after.machine == if stranded {
                state.machine.home()
            } else {
                state.machine
            }
            &&& told.last() == EffectView::Report(StatusView::ClientDisconnected(screen))
            &&& !stranded ==> told.len() == 1
            &&& stranded ==> {
                &&& told.len() == 5
                &&& told[0] == EffectView::SetGrab(false)
                &&& told[1] == EffectView::Report(StatusView::Grab(false))
                &&& told[2] == (EffectView::WarpCursor {
                    x: after.machine.cursor_x,
                    y: after.machine.cursor_y,
                })
                &&& told[3] == EffectView::Report(
                    StatusView::ActiveScreen(state.machine.local_screen),
                )
            }
        }),
{
    let rest = state.without(screen);
    if state.clients.contains(screen) {
        let gone = state.clients.index_of(screen);
        if rest.contains(screen) {
            let k = rest.index_of(screen);
            assert(state.clients[if k < gone { k } else { k + 1 }] == screen);
        }
        if rest.contains(other) {
            let k = rest.index_of(other);
            assert(state.clients[if k < gone { k } else { k + 1 }] == other);
        }
        if state.clients.contains(other) && other != screen {
            let k = state.clients.index_of(other);
            assert(rest[if k < gone { k } else { k - 1 }] == other);
        }
    }
    reveal_with_fuel(all_dispatched, 4);
    if state.machine.active == screen && state.machine.remote() {
        let homing = state.machine.homing();
        assert(homing.drop_last().drop_last().drop_last() =~= Seq::empty());
        assert(homing.drop_last().drop_last().last() == homing[0]);
        assert(homing.drop_last().last() == homing[1]);
    }
}

/// Everything but local input is always taken, and local input if the machine takes it.
pub proof fn lemma_events_are_taken(state: ControllerState, ev: EventView)
    ensures
        !(ev is Local) ==> state.can_take(ev),
        ev matches EventView::Local(local) ==> state.can_take(ev) == state.machine.can_take(local),
{
}

} // verus!
