//! The reserved bytes of the wire format.

use vstd::prelude::*;

verus! {

/// Reserved byte without an assigned meaning.
pub const CONTROL_CODE_SOH: u8 = 0x01;

/// Start byte: opens a frame.
pub const CONTROL_CODE_STX: u8 = 0x02;

/// Stop byte: closes a frame.
pub const CONTROL_CODE_ETX: u8 = 0x03;

/// Escape byte: the byte after it is taken literally.
pub const CONTROL_CODE_DLE: u8 = 0x10;

/// The four reserved bytes by name.
#[derive(Clone, Copy, Debug, PartialEq, Eq, Structural)]
pub enum ControlByte {
    /// `0x01`, reserved; ignored when it arrives unescaped inside a frame.
    Reserved,
    /// `0x02`, start of frame.
    Start,
    /// `0x03`, end of frame.
    End,
    /// `0x10`, escape.
    Escape,
}

/// Whether `byte` is one of the four reserved values, so that it has to be
/// escaped when it occurs as data.
pub open spec fn is_reserved(byte: u8) -> bool {
    byte == CONTROL_CODE_SOH || byte == CONTROL_CODE_STX || byte == CONTROL_CODE_ETX || byte
        == CONTROL_CODE_DLE
}

impl ControlByte {
    /// The byte that stands for this control code on the wire.
    pub open spec fn spec_value(self) -> u8 {
        match self {
            ControlByte::Reserved => CONTROL_CODE_SOH,
            ControlByte::Start => CONTROL_CODE_STX,
            ControlByte::End => CONTROL_CODE_ETX,
            ControlByte::Escape => CONTROL_CODE_DLE,
        }
    }

    /// The control code that `byte` stands for, if it is reserved.
    pub open spec fn spec_classify(byte: u8) -> Option<ControlByte> {
        if byte == CONTROL_CODE_SOH {
            Some(ControlByte::Reserved)
        } else if byte == CONTROL_CODE_STX {
            Some(ControlByte::Start)
        } else if byte == CONTROL_CODE_ETX {
            Some(ControlByte::End)
        } else if byte == CONTROL_CODE_DLE {
            Some(ControlByte::Escape)
        } else {
            None
        }
    }

    /// The byte that stands for this control code on the wire.
    pub fn value(self) -> (byte: u8)
        ensures
            byte == self.spec_value(),
            is_reserved(byte),
            ControlByte::spec_classify(byte) == Some(self),
    {
        match self {
            ControlByte::Reserved => CONTROL_CODE_SOH,
            ControlByte::Start => CONTROL_CODE_STX,
            ControlByte::End => CONTROL_CODE_ETX,
            ControlByte::Escape => CONTROL_CODE_DLE,
        }
    }

    /// Names `byte` if it is reserved; ordinary data bytes give `None`.
    pub fn classify(byte: u8) -> (code: Option<ControlByte>)
        ensures
            code == ControlByte::spec_classify(byte),
            code is Some <==> is_reserved(byte),
            code matches Some(c) ==> c.spec_value() == byte,
    {
        if byte == CONTROL_CODE_SOH {
            Some(ControlByte::Reserved)
        } else if byte == CONTROL_CODE_STX {
            Some(ControlByte::Start)
        } else if byte == CONTROL_CODE_ETX {
            Some(ControlByte::End)
        } else if byte == CONTROL_CODE_DLE {
            Some(ControlByte::Escape)
        } else {
            None
        }
    }
}

} // verus!
