use aeternity_signer::instruction::{status_screen, ApduHeader, Instruction, StatusScreen, StatusType};
use aeternity_signer::status::AppSW;

fn header(ins: u8, p1: u8, p2: u8) -> ApduHeader {
    ApduHeader { cla: 0xe0, ins, p1, p2 }
}

#[test]
fn every_command_has_its_header() {
    assert_eq!(
        Instruction::try_from(header(2, 0x00, 0)),
        Ok(Instruction::GetAddress { confirm_needed: false })
    );
    assert_eq!(
        Instruction::try_from(header(2, 0x01, 0)),
        Ok(Instruction::GetAddress { confirm_needed: true })
    );
    assert_eq!(
        Instruction::try_from(header(4, 0x00, 0)),
        Ok(Instruction::SignTx { first_chunk: true })
    );
    assert_eq!(
        Instruction::try_from(header(4, 0x80, 0)),
        Ok(Instruction::SignTx { first_chunk: false })
    );
    assert_eq!(Instruction::try_from(header(6, 0, 0)), Ok(Instruction::GetVersion));
    assert_eq!(Instruction::try_from(header(8, 0, 0)), Ok(Instruction::SignMsg));
    assert_eq!(Instruction::try_from(header(10, 0, 0)), Ok(Instruction::SignData));
}

#[test]
fn class_plays_no_part() {
    for cla in [0x00u8, 0x80, 0xe0, 0xff] {
        let header = ApduHeader { cla, ins: 6, p1: 0, p2: 0 };
        assert_eq!(Instruction::try_from(header), Ok(Instruction::GetVersion));
    }
}

#[test]
fn known_command_with_other_parameters_is_wrong_p1p2() {
    for ins in [2u8, 4, 6, 8, 10] {
        assert_eq!(Instruction::try_from(header(ins, 0, 1)), Err(AppSW::WrongP1P2));
        assert_eq!(Instruction::try_from(header(ins, 0x02, 0)), Err(AppSW::WrongP1P2));
        assert_eq!(Instruction::try_from(header(ins, 0xff, 0xff)), Err(AppSW::WrongP1P2));
    }
    assert_eq!(Instruction::try_from(header(2, 0x80, 0)), Err(AppSW::WrongP1P2));
    assert_eq!(Instruction::try_from(header(4, 0x01, 0)), Err(AppSW::WrongP1P2));
    assert_eq!(Instruction::try_from(header(6, 0x01, 0)), Err(AppSW::WrongP1P2));
    assert_eq!(Instruction::try_from(header(8, 0x80, 0)), Err(AppSW::WrongP1P2));
    assert_eq!(Instruction::try_from(header(10, 0x01, 0)), Err(AppSW::WrongP1P2));
}

#[test]
fn unknown_command_is_not_supported() {
    for ins in 0..=255u8 {
        if [2u8, 4, 6, 8, 10].contains(&ins) {
            continue;
        }
        assert_eq!(Instruction::try_from(header(ins, 0, 0)), Err(AppSW::InsNotSupported));
        assert_eq!(Instruction::try_from(header(ins, 1, 2)), Err(AppSW::InsNotSupported));
    }
}

#[test]
fn every_header_gives_a_command_or_one_of_two_errors() {
    for ins in 0..=255u8 {
        for p1 in [0u8, 1, 2, 0x7f, 0x80, 0x81, 0xff] {
            for p2 in [0u8, 1, 0xff] {
                let result = Instruction::try_from(header(ins, p1, p2));
                assert!(matches!(
                    result,
                    Ok(_) | Err(AppSW::WrongP1P2) | Err(AppSW::InsNotSupported)
                ));
                if p2 != 0 {
                    assert!(result.is_err());
                }
            }
        }
    }
}

#[test]
fn status_words_have_their_wire_values() {
    let expected = [
        (AppSW::Deny, 0x6985u16),
        (AppSW::WrongP1P2, 0x6A86),
        (AppSW::InsNotSupported, 0x6D00),
        (AppSW::ClaNotSupported, 0x6E00),
        (AppSW::TxDisplayFail, 0xB001),
        (AppSW::AddrDisplayFail, 0xB002),
        (AppSW::TxWrongLength, 0xB004),
        (AppSW::TxParsingFail, 0xB005),
        (AppSW::TxHashFail, 0xB006),
        (AppSW::TxSignFail, 0xB008),
        (AppSW::KeyDeriveFail, 0xB009),
        (AppSW::VersionParsingFail, 0xB00A),
        (AppSW::MsgWrongLength, 0xB100),
        (AppSW::MsgHashFail, 0xB101),
        (AppSW::MsgSignFail, 0xB102),
        (AppSW::GetAddressParsingFail, 0xB200),
        (AppSW::DataWrongLength, 0xB300),
        (AppSW::DataSignFail, 0xB301),
        (AppSW::WrongApduLength, 0x6E03),
        (AppSW::Success, 0x9000),
    ];
    for (status, code) in expected {
        assert_eq!(status.code(), code);
    }
    for (i, (_, a)) in expected.iter().enumerate() {
        for (_, b) in expected.iter().skip(i + 1) {
            assert_ne!(a, b);
        }
    }
}

fn screen(status_type: StatusType, success: bool) -> Option<StatusScreen> {
    Some(StatusScreen { status_type, success })
}

#[test]
fn reviewed_commands_close_with_a_screen() {
    let confirm = Instruction::GetAddress { confirm_needed: true };
    assert_eq!(status_screen(&confirm, true, AppSW::Success), screen(StatusType::Address, true));
    assert_eq!(status_screen(&confirm, true, AppSW::Deny), screen(StatusType::Address, false));
    for ins in [Instruction::SignData, Instruction::SignMsg] {
        assert_eq!(status_screen(&ins, true, AppSW::Success), screen(StatusType::Message, true));
        assert_eq!(status_screen(&ins, true, AppSW::Deny), screen(StatusType::Message, false));
    }
    for first_chunk in [true, false] {
        let ins = Instruction::SignTx { first_chunk };
        assert_eq!(
            status_screen(&ins, true, AppSW::Success),
            screen(StatusType::Transaction, true)
        );
        assert_eq!(status_screen(&ins, true, AppSW::Deny), screen(StatusType::Transaction, false));
    }
}

#[test]
fn other_outcomes_close_without_a_screen() {
    let silent = Instruction::GetAddress { confirm_needed: false };
    assert_eq!(status_screen(&silent, true, AppSW::Success), None);
    assert_eq!(status_screen(&silent, true, AppSW::Deny), None);
    assert_eq!(status_screen(&Instruction::GetVersion, true, AppSW::Success), None);
    let tx = Instruction::SignTx { first_chunk: true };
    assert_eq!(status_screen(&tx, false, AppSW::Success), None);
    assert_eq!(status_screen(&tx, false, AppSW::Deny), None);
    for status in [AppSW::TxParsingFail, AppSW::TxSignFail, AppSW::WrongApduLength] {
        assert_eq!(status_screen(&tx, true, status), None);
        assert_eq!(status_screen(&Instruction::SignData, true, status), None);
        assert_eq!(status_screen(&Instruction::SignMsg, true, status), None);
    }
}
