//! Protocol operation codes.
//!
//! Each CMSIS-DAP operation is identified by a single byte at the start of
//! every request and response frame. The set is closed: conversion from a
//! byte is checked, so an out-of-range value fails fast instead of
//! producing an invalid frame.

use vstd::prelude::*;

verus! {

/// The closed set of CMSIS-DAP operation codes.
#[derive(Clone, Copy, Debug, PartialEq, Eq, Structural)]
pub enum CommandId {
    Info,
    HostStatus,
    Connect,
    Delay,
    ResetTarget,
    SwjPins,
    SwjClock,
    SwjSequence,
    SwdConfigure,
    SwdSequence,
    JtagSequence,
    JtagConfigure,
    JtagIdcode,
}

impl CommandId {
    /// The wire byte of this operation code.
    pub open spec fn spec_byte(self) -> u8 {
        match self {
            CommandId::Info => 0x00,
            CommandId::HostStatus => 0x01,
            CommandId::Connect => 0x02,
            CommandId::Delay => 0x09,
            CommandId::ResetTarget => 0x0a,
            CommandId::SwjPins => 0x10,
            CommandId::SwjClock => 0x11,
            CommandId::SwjSequence => 0x12,
            CommandId::SwdConfigure => 0x13,
            CommandId::SwdSequence => 0x1d,
            CommandId::JtagSequence => 0x14,
            CommandId::JtagConfigure => 0x15,
            CommandId::JtagIdcode => 0x16,
        }
    }

    /// The operation code a wire byte stands for, if any.
    pub open spec fn spec_from_byte(b: u8) -> Option<CommandId> {
        match b {
            0x00u8 => Some(CommandId::Info),
            0x01u8 => Some(CommandId::HostStatus),
            0x02u8 => Some(CommandId::Connect),
            0x09u8 => Some(CommandId::Delay),
            0x0au8 => Some(CommandId::ResetTarget),
            0x10u8 => Some(CommandId::SwjPins),
            0x11u8 => Some(CommandId::SwjClock),
            0x12u8 => Some(CommandId::SwjSequence),
            0x13u8 => Some(CommandId::SwdConfigure),
            0x1du8 => Some(CommandId::SwdSequence),
            0x14u8 => Some(CommandId::JtagSequence),
            0x15u8 => Some(CommandId::JtagConfigure),
            0x16u8 => Some(CommandId::JtagIdcode),
            _ => None,
        }
    }

    /// Render this operation code as its wire byte.
    pub fn to_byte(self) -> (b: u8)
        ensures
            b == self.spec_byte(),
    {
        match self {
            CommandId::Info => 0x00,
            CommandId::HostStatus => 0x01,
            CommandId::Connect => 0x02,
            CommandId::Delay => 0x09,
            CommandId::ResetTarget => 0x0a,
            CommandId::SwjPins => 0x10,
            CommandId::SwjClock => 0x11,
            CommandId::SwjSequence => 0x12,
            CommandId::SwdConfigure => 0x13,
            CommandId::SwdSequence => 0x1d,
            CommandId::JtagSequence => 0x14,
            CommandId::JtagConfigure => 0x15,
            CommandId::JtagIdcode => 0x16,
        }
    }

    /// Checked conversion from a wire byte; `None` for a byte outside the
    /// closed set.
    pub fn from_byte(b: u8) -> (r: Option<CommandId>)
        ensures
            r == CommandId::spec_from_byte(b),
    {
        match b {
            0x00u8 => Some(CommandId::Info),
            0x01u8 => Some(CommandId::HostStatus),
            0x02u8 => Some(CommandId::Connect),
            0x09u8 => Some(CommandId::Delay),
            0x0au8 => Some(CommandId::ResetTarget),
            0x10u8 => Some(CommandId::SwjPins),
            0x11u8 => Some(CommandId::SwjClock),
            0x12u8 => Some(CommandId::SwjSequence),
            0x13u8 => Some(CommandId::SwdConfigure),
            0x1du8 => Some(CommandId::SwdSequence),
            0x14u8 => Some(CommandId::JtagSequence),
            0x15u8 => Some(CommandId::JtagConfigure),
            0x16u8 => Some(CommandId::JtagIdcode),
            _ => None,
        }
    }
}

/// Byte-to-code conversion inverts code-to-byte conversion on every
/// operation code.
pub proof fn lemma_command_byte_round_trip(c: CommandId)
    ensures
        CommandId::spec_from_byte(c.spec_byte()) == Some(c),
{
}

/// Code-to-byte conversion inverts byte-to-code conversion wherever the
/// latter succeeds.
pub proof fn lemma_command_from_byte_round_trip(b: u8, c: CommandId)
    requires
        CommandId::spec_from_byte(b) == Some(c),
    ensures
        c.spec_byte() == b,
{
}

} // verus!
