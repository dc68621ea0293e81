//! What the whole pipeline does: input captured on the server is injected on the client that holds
//! the cursor.

use crate::capture;
use crate::capture::{PhysicalButton, PhysicalKey};
use crate::client::{ClientActionView, ClientState};
use crate::controller;
use crate::controller::{ControllerState, EffectView, EventView};
use crate::events::{InputCommand, LocalEvent};
use crate::injection;
use crate::injection::{OutputButton, OutputKey};
use crate::keys::KeyId;
use crate::layout;
use crate::message;
use crate::message::{Decoding, MessageView};
use crate::payloads;
use crate::server;
use crate::server::{ServerActionView, ServerState};
use crate::session;
use crate::session::{Received, SessionEffectView};
use crate::wire;
use vstd::prelude::*;

verus! {

/// The command that repeats an event other than a motion on another machine.
pub open spec fn repeated(ev: LocalEvent) -> InputCommand {
    match ev {
        LocalEvent::Button { button, pressed } => InputCommand::MouseButton { button, pressed },
        LocalEvent::Wheel { x, y } => InputCommand::MouseWheel { x, y },
        LocalEvent::Key { id, mask, button, action } => InputCommand::Key {
            id,
            mask,
            button,
            action,
        },
        LocalEvent::MotionAbs { x, y } => InputCommand::MouseMoveAbs { x, y },
        LocalEvent::MotionRel { dx, dy } => InputCommand::MouseMoveRel { dx, dy },
    }
}

/// Input-forwarding messages, and those that hand the cursor over, are always within the limits.
pub proof fn lemma_input_messages_fit(m: MessageView)
    requires
        m.input() || m is Enter || m is Leave,
    ensures
        m.fits(),
        message::decoding(m.wire()) == Decoding::Decoded(m),
{
    wire::lemma_widths();
    assert(m.fits());
    message::lemma_roundtrip(m);
}

/// While a client holds the cursor, every button, key and wheel event on the server reaches it over
/// the wire, and it injects exactly that event.
pub proof fn lemma_events_reach_the_client(
    state: ServerState,
    ev: LocalEvent,
    client: ClientState,
)
    requires
        state.remote(),
        !(ev is MotionAbs),
        !(ev is MotionRel),
        client.entered,
    ensures
        ({
            let msg = server::forwarding(ev);
            &&& state.reaction(ev) == seq![ServerActionView::Send { screen: state.active, msg }]
            &&& message::decoding(msg.wire()) == Decoding::Decoded(msg)
            &&& client.reaction(msg) == seq![ClientActionView::Inject(repeated(ev))]
            &&& client.after(msg) == client
        }),
{
    lemma_input_messages_fit(server::forwarding(ev));
}

/// While a client holds the cursor, a motion that stays on its screen moves the client's cursor to
/// where the server's virtual cursor is.
pub proof fn lemma_motion_reaches_the_client(
    state: ServerState,
    dx: i32,
    dy: i32,
    client: ClientState,
)
    requires
        state.remote(),
        state.layout.contains_key(state.active),
        0 < state.layout[state.active].size.w <= i16::MAX,
        0 < state.layout[state.active].size.h <= i16::MAX,
        state.crossing(state.cursor_x + dx, state.cursor_y + dy) is None,
        client.entered,
        client.acked,
    ensures
        ({
            let ev = LocalEvent::MotionRel { dx, dy };
            let after = state.after(ev);
            let msg = MessageView::MouseMove {
                x: after.cursor_x as i16,
                y: after.cursor_y as i16,
            };
            &&& state.layout[state.active].size.covers(after.cursor_x, after.cursor_y)
            &&& state.reaction(ev) == seq![ServerActionView::Send { screen: state.active, msg }]
            &&& message::decoding(msg.wire()) == Decoding::Decoded(msg)
            &&& client.reaction(msg) == seq![
                ClientActionView::Inject(
                    InputCommand::MouseMoveAbs {
                        x: after.cursor_x as i32,
                        y: after.cursor_y as i32,
                    },
                ),
            ]
        }),
{
    let after = state.after(LocalEvent::MotionRel { dx, dy });
    lemma_input_messages_fit(
        MessageView::MouseMove { x: after.cursor_x as i16, y: after.cursor_y as i16 },
    );
}

/// A crossing onto a client's screen hands the cursor over: the client is told where it enters and
/// with which modifiers, and from then on it holds the cursor there.
pub proof fn lemma_crossing_hands_over(
    state: ServerState,
    ev: LocalEvent,
    x: int,
    y: int,
    client: ClientState,
)
    requires
        state.target(ev) == Some((x, y)),
        state.crossing(x, y) is Some,
        state.crossing(x, y)->0.to != state.local_screen,
        0 < state.layout[state.crossing(x, y)->0.to].size.w <= i16::MAX,
        0 < state.layout[state.crossing(x, y)->0.to].size.h <= i16::MAX,
    ensures
        ({
            let after = state.after(ev);
            let enter = MessageView::Enter {
                x: after.cursor_x as i16,
                y: after.cursor_y as i16,
                seq: after.seq,
                modifiers: state.modifiers,
            };
            &&& after.active == state.crossing(x, y)->0.to
            &&& after.layout[after.active].size.covers(after.cursor_x, after.cursor_y)
            &&& state.reaction(ev).contains(
                ServerActionView::Send { screen: after.active, msg: enter },
            )
            &&& state.remote() ==> state.reaction(ev)[0] == (ServerActionView::Send {
                screen: state.active,
                msg: MessageView::Leave,
            })
            &&& message::decoding(enter.wire()) == Decoding::Decoded(enter)
            &&& client.reaction(enter) == seq![
                ClientActionView::Entered,
                ClientActionView::Inject(
                    InputCommand::MouseMoveAbs {
                        x: after.cursor_x as i32,
                        y: after.cursor_y as i32,
                    },
                ),
            ]
            &&& client.after(enter).entered
            &&& client.after(enter).last_seq == after.seq
        }),
{
    let after = state.after(ev);
    let enter = MessageView::Enter {
        x: after.cursor_x as i16,
        y: after.cursor_y as i16,
        seq: after.seq,
        modifiers: state.modifiers,
    };
    layout::lemma_entry_is_on_target(state.layout, state.active, x, y);
    lemma_input_messages_fit(enter);
    let actions = state.reaction(ev);
    assert(actions[actions.len() - 2] == (ServerActionView::Send {
        screen: after.active,
        msg: enter,
    }));
}

/// The messages that forward input are those that a client which holds the cursor injects as one
/// command, and no others.
pub proof fn lemma_input_messages_are_those_injected(client: ClientState, msg: MessageView)
    requires
        client.entered,
        client.acked,
    ensures
        msg.input() <==> client.reaction(msg).len() == 1 && client.reaction(msg)[0] is Inject,
{
}

/// A key that is pressed on the server's keyboard is pressed on the client as the same key: a
/// modifier as that modifier, a function key or a key for moving and editing as itself, and a
/// character key as its character.
pub proof fn lemma_keys_come_out_as_they_went_in(k: PhysicalKey, id: KeyId)
    requires
        capture::key_id(k) == Some(id),
    ensures
        ({
            let comes_out = injection::key_for(id);
            match k {
                PhysicalKey::Return => comes_out == Some(OutputKey::Return),
                PhysicalKey::Tab => comes_out == Some(OutputKey::Tab),
                PhysicalKey::Backspace => comes_out == Some(OutputKey::Backspace),
                PhysicalKey::Escape => comes_out == Some(OutputKey::Escape),
                PhysicalKey::Delete => comes_out == Some(OutputKey::Delete),
                PhysicalKey::Home => comes_out == Some(OutputKey::Home),
                PhysicalKey::End => comes_out == Some(OutputKey::End),
                PhysicalKey::PageUp => comes_out == Some(OutputKey::PageUp),
                PhysicalKey::PageDown => comes_out == Some(OutputKey::PageDown),
                PhysicalKey::UpArrow => comes_out == Some(OutputKey::UpArrow),
                PhysicalKey::DownArrow => comes_out == Some(OutputKey::DownArrow),
                PhysicalKey::LeftArrow => comes_out == Some(OutputKey::LeftArrow),
                PhysicalKey::RightArrow => comes_out == Some(OutputKey::RightArrow),
                PhysicalKey::CapsLock => comes_out == Some(OutputKey::CapsLock),
                PhysicalKey::F1 => comes_out == Some(OutputKey::F1),
                PhysicalKey::F2 => comes_out == Some(OutputKey::F2),
                PhysicalKey::F3 => comes_out == Some(OutputKey::F3),
                PhysicalKey::F4 => comes_out == Some(OutputKey::F4),
                PhysicalKey::F5 => comes_out == Some(OutputKey::F5),
                PhysicalKey::F6 => comes_out == Some(OutputKey::F6),
                PhysicalKey::F7 => comes_out == Some(OutputKey::F7),
                PhysicalKey::F8 => comes_out == Some(OutputKey::F8),
                PhysicalKey::F9 => comes_out == Some(OutputKey::F9),
                PhysicalKey::F10 => comes_out == Some(OutputKey::F10),
                PhysicalKey::F11 => comes_out == Some(OutputKey::F11),
                PhysicalKey::F12 => comes_out == Some(OutputKey::F12),
                PhysicalKey::ShiftLeft | PhysicalKey::ShiftRight => comes_out == Some(
                    OutputKey::Shift,
                ),
                PhysicalKey::ControlLeft | PhysicalKey::ControlRight => comes_out == Some(
                    OutputKey::Control,
                ),
                PhysicalKey::Alt | PhysicalKey::AltGr => comes_out == Some(OutputKey::Alt),
                PhysicalKey::MetaLeft | PhysicalKey::MetaRight => comes_out == Some(
                    OutputKey::Meta,
                ),
                PhysicalKey::Insert => comes_out is None,
                _ => comes_out matches Some(OutputKey::Unicode(c)) && capture::key_typing(
                    c as KeyId,
                ) == Some(k),
            }
        }),
{
    capture::lemma_keys_have_the_ids_that_they_type(k, id);
}

/// A button that is pressed on the server's mouse is pressed on the client as the same button.
pub proof fn lemma_buttons_come_out_as_they_went_in(b: PhysicalButton)
    ensures
        b is Left ==> injection::button_for(capture::button_number(b)) == OutputButton::Left,
        b is Middle ==> injection::button_for(capture::button_number(b)) == OutputButton::Middle,
        b is Right ==> injection::button_for(capture::button_number(b)) == OutputButton::Right,
{
}

/// From the keyboard to the other machine: while a connected client holds the cursor, a captured
/// button, key or wheel event goes out to that client as one message, byte for byte, and what its
/// session does is to inject the event once. Nothing else is done on either side.
pub proof fn lemma_input_goes_all_the_way(
    controller: ControllerState,
    ev: LocalEvent,
    client: ClientState,
    got: Received,
)
    requires
        !(ev is MotionAbs) && !(ev is MotionRel),
        controller.machine.active != controller.machine.local_screen,
        controller.clients.contains(controller.machine.active),
        client.entered,
        got is Message,
        message::decoding(payloads::payload(server::forwarding(ev))) == Decoding::Decoded(
            got->Message_0@,
        ),
    ensures
        ({
            let effects = controller.effects(EventView::Local(ev));
            let did = session::session_effects(client, got);
            &&& effects.len() == 1
            &&& effects[0] == (EffectView::Deliver {
                screen: controller.machine.active,
                msg: got->Message_0@,
            })
            &&& did.len() == 1
            &&& did[0] matches SessionEffectView::Inject(cmd)
            &&& match ev {
                LocalEvent::Button { button, pressed } => cmd == (InputCommand::MouseButton {
                    button,
                    pressed,
                }),
                LocalEvent::Wheel { x, y } => cmd == (InputCommand::MouseWheel { x, y }),
                LocalEvent::Key { id, mask, button, action } => cmd == (InputCommand::Key {
                    id,
                    mask,
                    button,
                    action,
                }),
                _ => false,
            }
        }),
{
    let state = controller.machine;
    let msg = server::forwarding(ev);
    lemma_input_messages_fit(msg);
    payloads::lemma_payload_is_written_out(msg);
    lemma_events_reach_the_client(state, ev, client);
    controller::lemma_actions_are_carried_out(controller, ev);
    let effects = controller.effects(EventView::Local(ev));
    let place = choose|place: Seq<int>| #[trigger]
        controller::laid_out(effects, state.reaction(ev), controller.clients, place);
    assert(state.reaction(ev)[0] is Send);
    assert(effects.subrange(place[0], place[1]) =~= effects);
    session::lemma_actions_become_effects(client, got, 0);
}

/// From the mouse to the other machine: while a connected client holds the cursor and the goal of a
/// motion is on its screen, the client's pointer is put at that goal.
pub proof fn lemma_motion_goes_all_the_way(
    controller: ControllerState,
    dx: i32,
    dy: i32,
    client: ClientState,
)
    requires
        controller.machine.active != controller.machine.local_screen,
        controller.clients.contains(controller.machine.active),
        controller.machine.layout.contains_key(controller.machine.active),
        controller.machine.layout[controller.machine.active].size.w <= i16::MAX,
        controller.machine.layout[controller.machine.active].size.h <= i16::MAX,
        0 <= controller.machine.cursor_x + dx
            < controller.machine.layout[controller.machine.active].size.w,
        0 <= controller.machine.cursor_y + dy
            < controller.machine.layout[controller.machine.active].size.h,
        client.entered,
        client.acked,
    ensures
        ({
            let state = controller.machine;
            let effects = controller.effects(EventView::Local(LocalEvent::MotionRel { dx, dy }));
            &&& effects.len() == 1
            &&& effects[0] matches EffectView::Deliver { screen, msg }
            &&& screen == state.active
            &&& message::decoding(payloads::payload(msg)) == Decoding::Decoded(msg)
            &&& client.reaction(msg).len() == 1
            &&& client.reaction(msg)[0] matches ClientActionView::Inject(
                InputCommand::MouseMoveAbs { x, y },
            )
            &&& x == state.cursor_x + dx
            &&& y == state.cursor_y + dy
        }),
{
    let state = controller.machine;
    let ev = LocalEvent::MotionRel { dx, dy };
    let effects = controller.effects(EventView::Local(ev));
    layout::lemma_crossing_goes_to_the_neighbour(
        state.layout,
        state.active,
        state.cursor_x + dx,
        state.cursor_y + dy,
    );
    server::lemma_remote_motion_leads_to_its_goal(state, dx, dy);
    controller::lemma_actions_are_carried_out(controller, ev);
    let place = choose|place: Seq<int>| #[trigger]
        controller::laid_out(effects, state.reaction(ev), controller.clients, place);
    assert(state.reaction(ev)[0] is Send);
    assert(effects.subrange(place[0], place[1]) =~= effects);
    let msg = effects[0]->Deliver_msg;
    lemma_input_messages_fit(msg);
    payloads::lemma_payload_is_written_out(msg);
}

} // verus!
