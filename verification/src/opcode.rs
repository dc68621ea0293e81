//! The four-letter codes that open every message but the greetings.

use crate::wire;
use vstd::prelude::*;

verus! {

/// What a message is about, as its opcode says.
#[derive(Clone, Copy, Debug, PartialEq, Eq, Structural)]
pub enum Opcode {
    /// `QINF`
    QueryInfo,
    /// `DINF`
    DeviceInfo,
    /// `CIAK`
    InfoAck,
    /// `CROP`
    ResetOptions,
    /// `DSOP`
    SetOptions,
    /// `CALV`
    KeepAlive,
    /// `CNOP`
    NoOp,
    /// `CBYE`
    Close,
    /// `CSEC`
    ScreenSaver,
    /// `CINN`
    Enter,
    /// `COUT`
    Leave,
    /// `DKDN`
    KeyDown,
    /// `DKUP`
    KeyUp,
    /// `DKRP`
    KeyRepeat,
    /// `DMDN`
    MouseDown,
    /// `DMUP`
    MouseUp,
    /// `DMMV`
    MouseMove,
    /// `DMRM`
    MouseRelMove,
    /// `DMWM`
    MouseWheel,
    /// `CCLP`
    ClipboardGrab,
    /// `DCLP`
    ClipboardData,
    /// `FOFR`
    FileOffer,
    /// `FDAT`
    FileChunk,
    /// `FEND`
    FileEnd,
    /// `FACK`
    FileAccept,
    /// `EICV`
    ErrIncompatible,
    /// `EBSY`
    ErrBusy,
    /// `EUNK`
    ErrUnknown,
    /// `EBAD`
    ErrBad,
}

impl Opcode {
    /// The four ASCII letters of the opcode as one big-endian number.
    pub open spec fn word(self) -> u32 {
        match self {
            Opcode::QueryInfo => 0x5149_4E46,
            Opcode::DeviceInfo => 0x4449_4E46,
            Opcode::InfoAck => 0x4349_414B,
            Opcode::ResetOptions => 0x4352_4F50,
            Opcode::SetOptions => 0x4453_4F50,
            Opcode::KeepAlive => 0x4341_4C56,
            Opcode::NoOp => 0x434E_4F50,
            Opcode::Close => 0x4342_5945,
            Opcode::ScreenSaver => 0x4353_4543,
            Opcode::Enter => 0x4349_4E4E,
            Opcode::Leave => 0x434F_5554,
            Opcode::KeyDown => 0x444B_444E,
            Opcode::KeyUp => 0x444B_5550,
            Opcode::KeyRepeat => 0x444B_5250,
            Opcode::MouseDown => 0x444D_444E,
            Opcode::MouseUp => 0x444D_5550,
            Opcode::MouseMove => 0x444D_4D56,
            Opcode::MouseRelMove => 0x444D_524D,
            Opcode::MouseWheel => 0x444D_574D,
            Opcode::ClipboardGrab => 0x4343_4C50,
            Opcode::ClipboardData => 0x4443_4C50,
            Opcode::FileOffer => 0x464F_4652,
            Opcode::FileChunk => 0x4644_4154,
            Opcode::FileEnd => 0x4645_4E44,
            Opcode::FileAccept => 0x4641_434B,
            Opcode::ErrIncompatible => 0x4549_4356,
            Opcode::ErrBusy => 0x4542_5359,
            Opcode::ErrUnknown => 0x4555_4E4B,
            Opcode::ErrBad => 0x4542_4144,
        }
    }

    /// The opcode with these letters.
    pub open spec fn of_word(word: nat) -> Option<Opcode> {
        if word == Opcode::QueryInfo.word() {
            Some(Opcode::QueryInfo)
        } else if word == Opcode::DeviceInfo.word() {
            Some(Opcode::DeviceInfo)
        } else if word == Opcode::InfoAck.word() {
            Some(Opcode::InfoAck)
        } else if word == Opcode::ResetOptions.word() {
            Some(Opcode::ResetOptions)
        } else if word == Opcode::SetOptions.word() {
            Some(Opcode::SetOptions)
        } else if word == Opcode::KeepAlive.word() {
            Some(Opcode::KeepAlive)
        } else if word == Opcode::NoOp.word() {
            Some(Opcode::NoOp)
        } else if word == Opcode::Close.word() {
            Some(Opcode::Close)
        } else if word == Opcode::ScreenSaver.word() {
            Some(Opcode::ScreenSaver)
        } else if word == Opcode::Enter.word() {
            Some(Opcode::Enter)
        } else if word == Opcode::Leave.word() {
            Some(Opcode::Leave)
        } else if word == Opcode::KeyDown.word() {
            Some(Opcode::KeyDown)
        } else if word == Opcode::KeyUp.word() {
            Some(Opcode::KeyUp)
        } else if word == Opcode::KeyRepeat.word() {
            Some(Opcode::KeyRepeat)
        } else if word == Opcode::MouseDown.word() {
            Some(Opcode::MouseDown)
        } else if word == Opcode::MouseUp.word() {
            Some(Opcode::MouseUp)
        } else if word == Opcode::MouseMove.word() {
            Some(Opcode::MouseMove)
        } else if word == Opcode::MouseRelMove.word() {
            Some(Opcode::MouseRelMove)
        } else if word == Opcode::MouseWheel.word() {
            Some(Opcode::MouseWheel)
        } else if word == Opcode::ClipboardGrab.word() {
            Some(Opcode::ClipboardGrab)
        } else if word == Opcode::ClipboardData.word() {
            Some(Opcode::ClipboardData)
        } else if word == Opcode::FileOffer.word() {
            Some(Opcode::FileOffer)
        } else if word == Opcode::FileChunk.word() {
            Some(Opcode::FileChunk)
        } else if word == Opcode::FileEnd.word() {
            Some(Opcode::FileEnd)
        } else if word == Opcode::FileAccept.word() {
            Some(Opcode::FileAccept)
        } else if word == Opcode::ErrIncompatible.word() {
            Some(Opcode::ErrIncompatible)
        } else if word == Opcode::ErrBusy.word() {
            Some(Opcode::ErrBusy)
        } else if word == Opcode::ErrUnknown.word() {
            Some(Opcode::ErrUnknown)
        } else if word == Opcode::ErrBad.word() {
            Some(Opcode::ErrBad)
        } else {
            None
        }
    }

    /// No two opcodes share their letters.
    pub proof fn lemma_distinct(self)
        ensures
            Opcode::of_word(self.word() as nat) == Some(self),
    {
    }

    /// The letters of the opcode.
    pub fn code(self) -> (code: [u8; 4])
        ensures
            code@ == wire::be_wire(self.word() as nat, 4),
    {
        let word: u32 = match self {
            Opcode::QueryInfo => 0x5149_4E46,
            Opcode::DeviceInfo => 0x4449_4E46,
            Opcode::InfoAck => 0x4349_414B,
            Opcode::ResetOptions => 0x4352_4F50,
            Opcode::SetOptions => 0x4453_4F50,
            Opcode::KeepAlive => 0x4341_4C56,
            Opcode::NoOp => 0x434E_4F50,
            Opcode::Close => 0x4342_5945,
            Opcode::ScreenSaver => 0x4353_4543,
            Opcode::Enter => 0x4349_4E4E,
            Opcode::Leave => 0x434F_5554,
            Opcode::KeyDown => 0x444B_444E,
            Opcode::KeyUp => 0x444B_5550,
            Opcode::KeyRepeat => 0x444B_5250,
            Opcode::MouseDown => 0x444D_444E,
            Opcode::MouseUp => 0x444D_5550,
            Opcode::MouseMove => 0x444D_4D56,
            Opcode::MouseRelMove => 0x444D_524D,
            Opcode::MouseWheel => 0x444D_574D,
            Opcode::ClipboardGrab => 0x4343_4C50,
            Opcode::ClipboardData => 0x4443_4C50,
            Opcode::FileOffer => 0x464F_4652,
            Opcode::FileChunk => 0x4644_4154,
            Opcode::FileEnd => 0x4645_4E44,
            Opcode::FileAccept => 0x4641_434B,
            Opcode::ErrIncompatible => 0x4549_4356,
            Opcode::ErrBusy => 0x4542_5359,
            Opcode::ErrUnknown => 0x4555_4E4B,
            Opcode::ErrBad => 0x4542_4144,
        };
        proof {
            wire::lemma_be_wire_4(word as nat);
        }
        let code: [u8; 4] = [
            (word / 0x100_0000 % 256) as u8,
            (word / 0x1_0000 % 256) as u8,
            (word / 0x100 % 256) as u8,
            (word % 256) as u8,
        ];
        assert(code@ =~= wire::be_wire(word as nat, 4));
        code
    }

    /// The opcode with these letters, as one big-endian number.
    pub fn from_word(word: u32) -> (op: Option<Opcode>)
        ensures
            op == Opcode::of_word(word as nat),
    {
        if word == 0x5149_4E46 {
            Some(Opcode::QueryInfo)
        } else if word == 0x4449_4E46 {
            Some(Opcode::DeviceInfo)
        } else if word == 0x4349_414B {
            Some(Opcode::InfoAck)
        } else if word == 0x4352_4F50 {
            Some(Opcode::ResetOptions)
        } else if word == 0x4453_4F50 {
            Some(Opcode::SetOptions)
        } else if word == 0x4341_4C56 {
            Some(Opcode::KeepAlive)
        } else if word == 0x434E_4F50 {
            Some(Opcode::NoOp)
        } else if word == 0x4342_5945 {
            Some(Opcode::Close)
        } else if word == 0x4353_4543 {
            Some(Opcode::ScreenSaver)
        } else if word == 0x4349_4E4E {
            Some(Opcode::Enter)
        } else if word == 0x434F_5554 {
            Some(Opcode::Leave)
        } else if word == 0x444B_444E {
            Some(Opcode::KeyDown)
        } else if word == 0x444B_5550 {
            Some(Opcode::KeyUp)
        } else if word == 0x444B_5250 {
            Some(Opcode::KeyRepeat)
        } else if word == 0x444D_444E {
            Some(Opcode::MouseDown)
        } else if word == 0x444D_5550 {
            Some(Opcode::MouseUp)
        } else if word == 0x444D_4D56 {
            Some(Opcode::MouseMove)
        } else if word == 0x444D_524D {
            Some(Opcode::MouseRelMove)
        } else if word == 0x444D_574D {
            Some(Opcode::MouseWheel)
        } else if word == 0x4343_4C50 {
            Some(Opcode::ClipboardGrab)
        } else if word == 0x4443_4C50 {
            Some(Opcode::ClipboardData)
        } else if word == 0x464F_4652 {
            Some(Opcode::FileOffer)
        } else if word == 0x4644_4154 {
            Some(Opcode::FileChunk)
        } else if word == 0x4645_4E44 {
            Some(Opcode::FileEnd)
        } else if word == 0x4641_434B {
            Some(Opcode::FileAccept)
        } else if word == 0x4549_4356 {
            Some(Opcode::ErrIncompatible)
        } else if word == 0x4542_5359 {
            Some(Opcode::ErrBusy)
        } else if word == 0x4555_4E4B {
            Some(Opcode::ErrUnknown)
        } else if word == 0x4542_4144 {
            Some(Opcode::ErrBad)
        } else {
            None
        }
    }
}

} // verus!
