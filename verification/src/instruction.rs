//! The commands of the device and how a request header selects one.

use vstd::prelude::*;
use crate::status::AppSW;

verus! {

/// First parameter of GetAddress: answer without asking the operator.
pub const P1_CONFIRM_NOT_NEEDED: u8 = 0x00;

/// First parameter of GetAddress: show the address and ask the operator first.
pub const P1_CONFIRM_NEEDED: u8 = 0x01;

/// First parameter of SignTx: the first chunk of a transaction.
pub const P1_SIGN_TX_START: u8 = 0x00;

/// First parameter of SignTx: a further chunk of a transaction.
pub const P1_SIGN_TX_MORE: u8 = 0x80;

/// Instruction code of GetAddress.
pub const INS_GET_ADDRESS: u8 = 2;

/// Instruction code of SignTx.
pub const INS_SIGN_TX: u8 = 4;

/// Instruction code of GetVersion.
pub const INS_GET_VERSION: u8 = 6;

/// Instruction code of SignMsg.
pub const INS_SIGN_MSG: u8 = 8;

/// Instruction code of SignData.
pub const INS_SIGN_DATA: u8 = 10;

/// The four bytes that classify a request.
#[derive(Clone, Copy, Debug, PartialEq, Eq, Structural)]
pub struct ApduHeader {
    /// Class.
    pub cla: u8,
    /// Instruction.
    pub ins: u8,
    /// Parameter 1.
    pub p1: u8,
    /// Parameter 2.
    pub p2: u8,
}

/// Possible input commands received through APDUs.
#[derive(Clone, Copy, Debug, PartialEq, Eq, Structural)]
pub enum Instruction {
    GetVersion,
    GetAddress { confirm_needed: bool },
    SignData,
    SignTx { first_chunk: bool },
    SignMsg,
}

/// The command that a header selects. A header with an instruction code
/// that the device does not know is answered with `InsNotSupported`, one
/// with a known code and parameters that the command does not take with
/// `WrongP1P2`. The class plays no part.
pub open spec fn instruction_of(header: ApduHeader) -> Result<Instruction, AppSW> {
    match (header.ins, header.p1, header.p2) {
        (2, 0x00, 0) => Ok(Instruction::GetAddress { confirm_needed: false }),
        (2, 0x01, 0) => Ok(Instruction::GetAddress { confirm_needed: true }),
        (4, 0x00, 0) => Ok(Instruction::SignTx { first_chunk: true }),
        (4, 0x80, 0) => Ok(Instruction::SignTx { first_chunk: false }),
        (6, 0, 0) => Ok(Instruction::GetVersion),
        (8, 0, 0) => Ok(Instruction::SignMsg),
        (10, 0, 0) => Ok(Instruction::SignData),
        (2, _, _) | (4, _, _) | (6, _, _) | (8, _, _) | (10, _, _) => Err(AppSW::WrongP1P2),
        (_, _, _) => Err(AppSW::InsNotSupported),
    }
}

impl Instruction {
    /// APDU parsing logic.
    ///
    /// Parses the instruction byte and the two parameter bytes to build an
    /// [`Instruction`]. The parameters become strongly typed variables
    /// depending on the instruction code. Invalid values result in errors
    /// with a status word.
    pub fn try_from(value: ApduHeader) -> (result: Result<Instruction, AppSW>)
        ensures
            result == instruction_of(value),
    {
        if value.ins == INS_GET_ADDRESS {
            if value.p2 == 0 && (value.p1 == P1_CONFIRM_NOT_NEEDED || value.p1
                == P1_CONFIRM_NEEDED) {
                Ok(Instruction::GetAddress { confirm_needed: value.p1 == P1_CONFIRM_NEEDED })
            } else {
                Err(AppSW::WrongP1P2)
            }
        } else if value.ins == INS_SIGN_TX {
            if value.p2 == 0 && (value.p1 == P1_SIGN_TX_START || value.p1 == P1_SIGN_TX_MORE) {
                Ok(Instruction::SignTx { first_chunk: value.p1 == P1_SIGN_TX_START })
            } else {
                Err(AppSW::WrongP1P2)
            }
        } else if value.ins == INS_GET_VERSION {
            if value.p1 == 0 && value.p2 == 0 {
                Ok(Instruction::GetVersion)
            } else {
                Err(AppSW::WrongP1P2)
            }
        } else if value.ins == INS_SIGN_MSG {
            if value.p1 == 0 && value.p2 == 0 {
                Ok(Instruction::SignMsg)
            } else {
                Err(AppSW::WrongP1P2)
            }
        } else if value.ins == INS_SIGN_DATA {
            if value.p1 == 0 && value.p2 == 0 {
                Ok(Instruction::SignData)
            } else {
                Err(AppSW::WrongP1P2)
            }
        } else {
            Err(AppSW::InsNotSupported)
        }
    }
}

/// What a status screen is about.
#[derive(Clone, Copy, Debug, PartialEq, Eq, Structural)]
pub enum StatusType {
    Address,
    Message,
    Transaction,
}

/// The screen that closes a command.
#[derive(Clone, Copy, Debug, PartialEq, Eq, Structural)]
pub struct StatusScreen {
    /// What was reviewed.
    pub status_type: StatusType,
    /// Whether it was approved and done.
    pub success: bool,
}

/// The screen that closes a command, if it has one: commands that went
/// through a review close with a screen when they were approved and done or
/// denied, and with none on any other failure. An address that was not
/// shown and a version leave no screen.
pub open spec fn status_screen_of(ins: Instruction, tx_finished: bool, status: AppSW) -> Option<
    StatusScreen,
> {
    if status != AppSW::Deny && status != AppSW::Success {
        None
    } else {
        let success = status == AppSW::Success;
        match ins {
            Instruction::GetAddress { confirm_needed: true } => Some(
                StatusScreen { status_type: StatusType::Address, success },
            ),
            Instruction::SignData => Some(StatusScreen { status_type: StatusType::Message, success }),
            Instruction::SignMsg => Some(StatusScreen { status_type: StatusType::Message, success }),
            Instruction::SignTx { first_chunk: _ } => if tx_finished {
                Some(StatusScreen { status_type: StatusType::Transaction, success })
            } else {
                None
            },
            _ => None,
        }
    }
}

/// Decides which screen closes a command.
pub fn status_screen(ins: &Instruction, tx_finished: bool, status: AppSW) -> (screen: Option<
    StatusScreen,
>)
    ensures
        screen == status_screen_of(*ins, tx_finished, status),
{
    let success: bool = match status {
        AppSW::Success => true,
        AppSW::Deny => false,
        _ => {
            return None;
        },
    };
    match ins {
        Instruction::GetAddress { confirm_needed: true } => Some(
            StatusScreen { status_type: StatusType::Address, success },
        ),
        Instruction::SignData => Some(StatusScreen { status_type: StatusType::Message, success }),
        Instruction::SignMsg => Some(StatusScreen { status_type: StatusType::Message, success }),
        Instruction::SignTx { first_chunk: _ } => {
            if tx_finished {
                Some(StatusScreen { status_type: StatusType::Transaction, success })
            } else {
                None
            }
        },
        _ => None,
    }
}

} // verus!
