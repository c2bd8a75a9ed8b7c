//! Status words returned to the host.

use vstd::prelude::*;

verus! {

/// Application status words.
#[derive(Clone, Copy, Debug, PartialEq, Eq, Structural)]
pub enum AppSW {
    Deny,
    WrongP1P2,
    InsNotSupported,
    ClaNotSupported,
    TxDisplayFail,
    AddrDisplayFail,
    TxWrongLength,
    TxParsingFail,
    TxHashFail,
    TxSignFail,
    KeyDeriveFail,
    VersionParsingFail,
    MsgWrongLength,
    MsgHashFail,
    MsgSignFail,
    GetAddressParsingFail,
    DataWrongLength,
    DataSignFail,
    WrongApduLength,
    Success,
}

impl AppSW {
    /// The 16-bit value that goes on the wire for this status.
    pub open spec fn spec_code(self) -> u16 {
        match self {
            AppSW::Deny => 0x6985,
            AppSW::WrongP1P2 => 0x6A86,
            AppSW::InsNotSupported => 0x6D00,
            AppSW::ClaNotSupported => 0x6E00,
            AppSW::TxDisplayFail => 0xB001,
            AppSW::AddrDisplayFail => 0xB002,
            AppSW::TxWrongLength => 0xB004,
            AppSW::TxParsingFail => 0xB005,
            AppSW::TxHashFail => 0xB006,
            AppSW::TxSignFail => 0xB008,
            AppSW::KeyDeriveFail => 0xB009,
            AppSW::VersionParsingFail => 0xB00A,
            AppSW::MsgWrongLength => 0xB100,
            AppSW::MsgHashFail => 0xB101,
            AppSW::MsgSignFail => 0xB102,
            AppSW::GetAddressParsingFail => 0xB200,
            AppSW::DataWrongLength => 0xB300,
            AppSW::DataSignFail => 0xB301,
            AppSW::WrongApduLength => 0x6E03,
            AppSW::Success => 0x9000,
        }
    }

    /// Returns the 16-bit value that goes on the wire for this status.
    #[verifier::when_used_as_spec(spec_code)]
    pub fn code(self) -> (sw: u16)
        ensures
            sw == self.spec_code(),
    {
        match self {
            AppSW::Deny => 0x6985,
            AppSW::WrongP1P2 => 0x6A86,
            AppSW::InsNotSupported => 0x6D00,
            AppSW::ClaNotSupported => 0x6E00,
            AppSW::TxDisplayFail => 0xB001,
            AppSW::AddrDisplayFail => 0xB002,
            AppSW::TxWrongLength => 0xB004,
            AppSW::TxParsingFail => 0xB005,
            AppSW::TxHashFail => 0xB006,
            AppSW::TxSignFail => 0xB008,
            AppSW::KeyDeriveFail => 0xB009,
            AppSW::VersionParsingFail => 0xB00A,
            AppSW::MsgWrongLength => 0xB100,
            AppSW::MsgHashFail => 0xB101,
            AppSW::MsgSignFail => 0xB102,
            AppSW::GetAddressParsingFail => 0xB200,
            AppSW::DataWrongLength => 0xB300,
            AppSW::DataSignFail => 0xB301,
            AppSW::WrongApduLength => 0x6E03,
            AppSW::Success => 0x9000,
        }
    }
}

/// No two statuses share a wire value, so the host can tell them apart.
pub proof fn lemma_codes_distinct(a: AppSW, b: AppSW)
    ensures
        a.spec_code() == b.spec_code() <==> a == b,
{
}

} // verus!
