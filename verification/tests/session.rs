use aeternity_signer::instruction::{ApduHeader, Instruction, StatusScreen, StatusType};
use aeternity_signer::review::{Field, Review, ReviewKind};
use aeternity_signer::session::{Action, Event, Session};
use aeternity_signer::status::AppSW;

const RECIPIENT: &str = "ak_mf8PEgoerh7TuU4tFUPcw2PAy51g5Cq9BWDwti4K2tGoy6yX9";
const ADDRESS: &str = "ak_EhrmmppAiaZPHqhPnnbgCk2EFHBf2JsYUnf3q6eTCyAHopAEZ";

const DIGEST_OF_SPEND: [u8; 32] = [
    0xce, 0xf5, 0xb2, 0xff, 0xb9, 0x5b, 0x52, 0x79, 0x2e, 0x1a, 0x5c, 0x82, 0x21, 0x93, 0xc6, 0x8f,
    0xd4, 0xf5, 0xfb, 0xfa, 0xaa, 0xb9, 0xa2, 0x27, 0xab, 0x81, 0x95, 0x06, 0x64, 0xf5, 0x05, 0x3c,
];

const DIGEST_OF_HELLO_WORLD_MESSAGE: [u8; 32] = [
    0x96, 0x8d, 0xd4, 0xcd, 0x55, 0x49, 0x4e, 0x3c, 0x2c, 0x8d, 0x7a, 0x83, 0xa3, 0x2a, 0xc4, 0x79,
    0xdd, 0x6a, 0x2b, 0x92, 0xbb, 0x93, 0x1e, 0xa5, 0x6a, 0xd5, 0xe6, 0xfb, 0xde, 0x54, 0x5a, 0x56,
];

fn field(name: &str, value: &str) -> Field {
    Field { name: name.to_string(), value: value.to_string() }
}

fn command(instruction: Instruction, data: &[u8]) -> Event {
    Event::Command { instruction, data: data.to_vec() }
}

fn reply(status: AppSW, body: &[u8], screen: Option<(StatusType, bool)>) -> Action {
    Action::Reply {
        status,
        body: body.to_vec(),
        screen: screen.map(|(status_type, success)| StatusScreen { status_type, success }),
    }
}

fn tagged(tag: u8, from: u8) -> Vec<u8> {
    let mut id = vec![tag];
    id.extend((0..32).map(|i| from + i));
    id
}

fn spend_with_tag(tag: u8) -> Vec<u8> {
    let fields: Vec<Vec<u8>> = vec![
        vec![tag],
        vec![0x01],
        tagged(1, 1),
        tagged(1, 101),
        vec![0x0d, 0xe0, 0xb6, 0xb3, 0xa7, 0x64, 0x00, 0x00],
        vec![0x0f, 0x26, 0xf5, 0x61, 0xc8, 0x00],
        vec![0x00],
        vec![0x07],
        b"hello".to_vec(),
    ];
    let mut body = Vec::new();
    for field in fields {
        if field.len() == 1 && field[0] < 0x80 {
            body.push(field[0]);
        } else {
            body.push(0x80 + field.len() as u8);
            body.extend(field);
        }
    }
    let mut out = vec![0xf8, body.len() as u8];
    out.extend(body);
    out
}

fn first_chunk(account: u32, network_id: &[u8], tx: &[u8]) -> Vec<u8> {
    let mut out = account.to_be_bytes().to_vec();
    out.extend((tx.len() as u32).to_be_bytes());
    out.push(network_id.len() as u8);
    out.extend_from_slice(network_id);
    out.extend_from_slice(tx);
    out
}

fn spend_review() -> Action {
    Action::Review {
        review: Review {
            kind: ReviewKind::Transaction,
            fields: vec![
                field("Amount", "1"),
                field("Fee", "0.00001666"),
                field("Destination", RECIPIENT),
                field("Payload", "hello"),
            ],
        },
    }
}

fn signing_input(network_id: &[u8]) -> Vec<u8> {
    let mut out = network_id.to_vec();
    out.extend_from_slice(&DIGEST_OF_SPEND);
    out
}

fn public_key() -> [u8; 65] {
    let mut key = [0u8; 65];
    key[0] = 0x04;
    key[32] = 0x01;
    key[33] = 0x05;
    for i in 1..32 {
        key[33 + i] = i as u8;
    }
    key
}

fn address_body() -> Vec<u8> {
    let mut body = vec![ADDRESS.len() as u8];
    body.extend_from_slice(ADDRESS.as_bytes());
    body
}

fn sign_payload(account: u32, payload: &[u8]) -> Vec<u8> {
    let mut out = account.to_be_bytes().to_vec();
    out.extend((payload.len() as u32).to_be_bytes());
    out.extend_from_slice(payload);
    out
}

#[test]
fn new_session_is_idle() {
    let session = Session::new("1.2.3");
    assert!(session.is_idle());
    assert_eq!(session.tx_context().account_number(), 0);
}

#[test]
fn version_is_answered_at_once() {
    let mut session = Session::new("1.2.3");
    let action = session.step(command(Instruction::GetVersion, &[]));
    assert_eq!(action, reply(AppSW::Success, &[0, 1, 2, 3], None));
    assert!(session.is_idle());
    // The payload plays no part.
    let action = session.step(command(Instruction::GetVersion, &[9, 9, 9]));
    assert_eq!(action, reply(AppSW::Success, &[0, 1, 2, 3], None));
}

#[test]
fn version_that_cannot_be_parsed_is_reported() {
    let mut session = Session::new("one.two");
    let action = session.step(command(Instruction::GetVersion, &[]));
    assert_eq!(action, reply(AppSW::VersionParsingFail, &[], None));
}

#[test]
fn address_without_confirmation_is_sent_once_the_key_is_there() {
    let mut session = Session::new("1.2.3");
    let ins = Instruction::GetAddress { confirm_needed: false };
    let action = session.step(command(ins, &[0, 0, 0, 5]));
    assert_eq!(action, Action::DerivePublicKey { account_number: 5 });
    assert!(!session.is_idle());
    let action = session.step(Event::PublicKey(Some(public_key())));
    assert_eq!(action, reply(AppSW::Success, &address_body(), None));
    assert!(session.is_idle());
}

#[test]
fn address_with_confirmation_is_sent_once_approved() {
    let mut session = Session::new("1.2.3");
    let ins = Instruction::GetAddress { confirm_needed: true };
    let action = session.step(command(ins, &[0, 0, 0, 5]));
    assert_eq!(action, Action::DerivePublicKey { account_number: 5 });
    let action = session.step(Event::PublicKey(Some(public_key())));
    assert_eq!(
        action,
        Action::Review {
            review: Review { kind: ReviewKind::Address, fields: vec![field("Address", ADDRESS)] }
        }
    );
    let action = session.step(Event::Approval(true));
    assert_eq!(action, reply(AppSW::Success, &address_body(), Some((StatusType::Address, true))));
    assert!(session.is_idle());
}

#[test]
fn address_that_is_denied_is_not_sent() {
    let mut session = Session::new("1.2.3");
    let ins = Instruction::GetAddress { confirm_needed: true };
    session.step(command(ins, &[0, 0, 0, 5]));
    session.step(Event::PublicKey(Some(public_key())));
    let action = session.step(Event::Approval(false));
    assert_eq!(action, reply(AppSW::Deny, &[], Some((StatusType::Address, false))));
    assert!(session.is_idle());
}

#[test]
fn address_request_of_the_wrong_length_is_refused() {
    let mut session = Session::new("1.2.3");
    let ins = Instruction::GetAddress { confirm_needed: true };
    let action = session.step(command(ins, &[0, 0, 5]));
    assert_eq!(action, reply(AppSW::WrongApduLength, &[], None));
    assert!(session.is_idle());
}

#[test]
fn failed_key_derivation_is_reported() {
    let mut session = Session::new("1.2.3");
    let ins = Instruction::GetAddress { confirm_needed: true };
    session.step(command(ins, &[0, 0, 0, 5]));
    let action = session.step(Event::PublicKey(None));
    assert_eq!(action, reply(AppSW::KeyDeriveFail, &[], None));
    assert!(session.is_idle());
}

#[test]
fn data_is_signed_as_it_stands_once_approved() {
    let mut session = Session::new("1.2.3");
    let action = session.step(command(Instruction::SignData, &sign_payload(3, b"hello")));
    assert_eq!(
        action,
        Action::Review {
            review: Review { kind: ReviewKind::Data, fields: vec![field("Data", "hello")] }
        }
    );
    let action = session.step(Event::Approval(true));
    assert_eq!(action, Action::Sign { account_number: 3, message: b"hello".to_vec() });
    let action = session.step(Event::Signature(Some([0x5a; 64])));
    assert_eq!(action, reply(AppSW::Success, &[0x5a; 64], Some((StatusType::Message, true))));
    assert!(session.is_idle());
}

#[test]
fn long_data_is_reviewed_without_a_line() {
    let mut session = Session::new("1.2.3");
    let data = [0x11u8; 60];
    let action = session.step(command(Instruction::SignData, &sign_payload(3, &data)));
    assert_eq!(action, Action::Review { review: Review { kind: ReviewKind::Data, fields: vec![] } });
    let action = session.step(Event::Approval(true));
    assert_eq!(action, Action::Sign { account_number: 3, message: data.to_vec() });
}

#[test]
fn data_request_with_a_wrong_length_is_refused() {
    let mut session = Session::new("1.2.3");
    let mut data = sign_payload(3, b"hello");
    data.push(0);
    let action = session.step(command(Instruction::SignData, &data));
    assert_eq!(action, reply(AppSW::DataWrongLength, &[], None));
    let action = session.step(command(Instruction::SignData, &[0, 0, 0]));
    assert_eq!(action, reply(AppSW::MsgWrongLength, &[], None));
    assert!(session.is_idle());
}

#[test]
fn failed_data_signature_is_reported() {
    let mut session = Session::new("1.2.3");
    session.step(command(Instruction::SignData, &sign_payload(3, b"hello")));
    session.step(Event::Approval(true));
    let action = session.step(Event::Signature(None));
    assert_eq!(action, reply(AppSW::DataSignFail, &[], None));
    assert!(session.is_idle());
}

#[test]
fn message_is_signed_by_its_digest_once_approved() {
    let mut session = Session::new("1.2.3");
    let action = session.step(command(Instruction::SignMsg, &sign_payload(9, b"hello world")));
    assert_eq!(
        action,
        Action::Review {
            review: Review {
                kind: ReviewKind::Message,
                fields: vec![field("Message", "hello world")]
            }
        }
    );
    let action = session.step(Event::Approval(true));
    assert_eq!(
        action,
        Action::Sign { account_number: 9, message: DIGEST_OF_HELLO_WORLD_MESSAGE.to_vec() }
    );
    let action = session.step(Event::Signature(Some([0xa5; 64])));
    assert_eq!(action, reply(AppSW::Success, &[0xa5; 64], Some((StatusType::Message, true))));
}

#[test]
fn message_errors_are_reported() {
    let mut session = Session::new("1.2.3");
    let mut data = sign_payload(9, b"hello world");
    data.pop();
    let action = session.step(command(Instruction::SignMsg, &data));
    assert_eq!(action, reply(AppSW::MsgWrongLength, &[], None));
    let action = session.step(command(Instruction::SignMsg, &sign_payload(9, &[0xff, 0xfe])));
    assert_eq!(action, reply(AppSW::TxDisplayFail, &[], None));
    session.step(command(Instruction::SignMsg, &sign_payload(9, b"hello world")));
    session.step(Event::Approval(true));
    let action = session.step(Event::Signature(None));
    assert_eq!(action, reply(AppSW::MsgSignFail, &[], None));
}

#[test]
fn transaction_is_reviewed_signed_and_answered() {
    let mut session = Session::new("1.2.3");
    let first = Instruction::SignTx { first_chunk: true };
    let chunk = first_chunk(0, b"ae_mainnet", &spend_with_tag(0x0c));
    let action = session.step(command(first, &chunk));
    assert_eq!(action, spend_review());
    let action = session.step(Event::Approval(true));
    assert_eq!(action, Action::Sign { account_number: 0, message: signing_input(b"ae_mainnet") });
    let action = session.step(Event::Signature(Some([0x77; 64])));
    assert_eq!(action, reply(AppSW::Success, &[0x77; 64], Some((StatusType::Transaction, true))));
    assert!(session.is_idle());
}

#[test]
fn transaction_is_signed_with_the_key_of_the_account_in_the_header() {
    let mut session = Session::new("1.2.3");
    let first = Instruction::SignTx { first_chunk: true };
    let chunk = first_chunk(0x00c0_ffee, b"ae_uat", &spend_with_tag(0x0c));
    session.step(command(first, &chunk));
    let action = session.step(Event::Approval(true));
    assert_eq!(
        action,
        Action::Sign { account_number: 0x00c0_ffee, message: signing_input(b"ae_uat") }
    );
}

#[test]
fn approval_is_asked_once_for_a_transaction_in_chunks() {
    let mut session = Session::new("1.2.3");
    let first = Instruction::SignTx { first_chunk: true };
    let more = Instruction::SignTx { first_chunk: false };
    let chunk = first_chunk(0, b"ae_mainnet", &spend_with_tag(0x0c));

    let mut reviews = 0;
    let mut signatures = 0;
    let mut count = |action: &Action| match action {
        Action::Review { .. } => reviews += 1,
        Action::Sign { .. } => signatures += 1,
        _ => {}
    };
    count(&session.step(command(first, &chunk)));
    count(&session.step(Event::Approval(true)));
    count(&session.step(Event::Signature(Some([0x77; 64]))));
    for data in [&[0xaa][..], &[], &[0xbb, 0xcc]] {
        let action = session.step(command(more, data));
        assert_eq!(action, reply(AppSW::Success, &[], Some((StatusType::Transaction, true))));
        count(&action);
    }
    assert_eq!(reviews, 1);
    assert_eq!(signatures, 1);
    assert!(session.is_idle());
}

#[test]
fn further_chunk_before_any_first_chunk_is_acknowledged() {
    let mut session = Session::new("1.2.3");
    let more = Instruction::SignTx { first_chunk: false };
    let action = session.step(command(more, &[1, 2, 3]));
    assert_eq!(action, reply(AppSW::Success, &[], Some((StatusType::Transaction, true))));
    assert!(session.is_idle());
    // Nothing is reviewed or signed on the strength of it.
    assert_eq!(session.step(Event::Approval(true)), reply(AppSW::Deny, &[], Some((StatusType::Transaction, false))));
    assert_eq!(session.tx_context().tx().recipient, "");
}

#[test]
fn denied_transaction_is_never_signed() {
    let mut session = Session::new("1.2.3");
    let first = Instruction::SignTx { first_chunk: true };
    let chunk = first_chunk(0, b"ae_mainnet", &spend_with_tag(0x0c));
    assert_eq!(session.step(command(first, &chunk)), spend_review());
    let action = session.step(Event::Approval(false));
    assert_eq!(action, reply(AppSW::Deny, &[], Some((StatusType::Transaction, false))));
    assert!(session.is_idle());
    // Whatever comes next, short of a new command, asks for no signature.
    for event in [
        Event::Approval(true),
        Event::Signature(Some([1; 64])),
        Event::Signature(None),
        Event::PublicKey(Some(public_key())),
        Event::Approval(false),
    ] {
        let action = session.step(event);
        assert_eq!(action, reply(AppSW::Deny, &[], Some((StatusType::Transaction, false))));
    }
}

#[test]
fn denied_data_and_message_are_never_signed() {
    for instruction in [Instruction::SignData, Instruction::SignMsg] {
        let mut session = Session::new("1.2.3");
        let action = session.step(command(instruction, &sign_payload(3, b"hello")));
        assert!(matches!(action, Action::Review { .. }));
        let action = session.step(Event::Approval(false));
        assert_eq!(action, reply(AppSW::Deny, &[], Some((StatusType::Message, false))));
        let action = session.step(Event::Approval(true));
        assert!(matches!(action, Action::Reply { status: AppSW::Deny, .. }));
    }
}

#[test]
fn other_kinds_of_transaction_are_denied_without_review() {
    let mut session = Session::new("1.2.3");
    let first = Instruction::SignTx { first_chunk: true };
    let chunk = first_chunk(0, b"ae_mainnet", &spend_with_tag(0x0b));
    let action = session.step(command(first, &chunk));
    assert_eq!(action, reply(AppSW::Deny, &[], Some((StatusType::Transaction, false))));
    assert!(session.is_idle());
}

#[test]
fn transaction_that_cannot_be_parsed_is_reported() {
    let mut session = Session::new("1.2.3");
    let first = Instruction::SignTx { first_chunk: true };
    let tx = spend_with_tag(0x0c);
    let chunk = first_chunk(0, b"ae_mainnet", &tx[..tx.len() - 1]);
    let action = session.step(command(first, &chunk));
    assert_eq!(action, reply(AppSW::TxParsingFail, &[], None));
    let action = session.step(command(first, &[0, 0, 0]));
    assert_eq!(action, reply(AppSW::TxParsingFail, &[], None));
    assert!(session.is_idle());
}

#[test]
fn failed_transaction_signature_is_reported() {
    let mut session = Session::new("1.2.3");
    let first = Instruction::SignTx { first_chunk: true };
    let chunk = first_chunk(0, b"ae_mainnet", &spend_with_tag(0x0c));
    session.step(command(first, &chunk));
    session.step(Event::Approval(true));
    let action = session.step(Event::Signature(None));
    assert_eq!(action, reply(AppSW::TxSignFail, &[], None));
    assert!(session.is_idle());
}

#[test]
fn signature_is_asked_for_only_after_an_approval() {
    let first = Instruction::SignTx { first_chunk: true };
    let chunk = first_chunk(0, b"ae_mainnet", &spend_with_tag(0x0c));
    let events = || {
        vec![
            Event::Approval(false),
            Event::Signature(Some([1; 64])),
            Event::Signature(None),
            Event::PublicKey(Some(public_key())),
            Event::PublicKey(None),
            command(Instruction::GetVersion, &[]),
            command(Instruction::SignData, &sign_payload(1, b"x")),
            command(Instruction::SignTx { first_chunk: false }, &[1]),
        ]
    };
    for i in 0..events().len() {
        // While idle.
        let mut session = Session::new("1.2.3");
        let action = session.step(events().remove(i));
        assert!(!matches!(action, Action::Sign { .. }));
        // While a review is open.
        let mut session = Session::new("1.2.3");
        session.step(command(first, &chunk));
        let action = session.step(events().remove(i));
        assert!(!matches!(action, Action::Sign { .. }));
        // While a signature is awaited.
        let mut session = Session::new("1.2.3");
        session.step(command(first, &chunk));
        session.step(Event::Approval(true));
        let action = session.step(events().remove(i));
        assert!(!matches!(action, Action::Sign { .. }));
    }
}

#[test]
fn event_that_is_not_awaited_ends_the_sequence_with_deny() {
    let mut session = Session::new("1.2.3");
    assert_eq!(session.step(Event::Approval(true)), reply(AppSW::Deny, &[], None));
    assert_eq!(session.step(Event::Signature(Some([0; 64]))), reply(AppSW::Deny, &[], None));
    assert_eq!(session.step(Event::PublicKey(Some(public_key()))), reply(AppSW::Deny, &[], None));

    let ins = Instruction::GetAddress { confirm_needed: true };
    session.step(command(ins, &[0, 0, 0, 5]));
    let action = session.step(Event::Approval(true));
    assert_eq!(action, reply(AppSW::Deny, &[], Some((StatusType::Address, false))));
    assert!(session.is_idle());
    let action = session.step(Event::PublicKey(Some(public_key())));
    assert_eq!(action, reply(AppSW::Deny, &[], Some((StatusType::Address, false))));
}

#[test]
fn new_command_gives_up_what_was_awaited() {
    let mut session = Session::new("1.2.3");
    session.step(command(Instruction::SignData, &sign_payload(3, b"hello")));
    let action = session.step(command(Instruction::GetVersion, &[]));
    assert_eq!(action, reply(AppSW::Success, &[0, 1, 2, 3], None));
    let action = session.step(Event::Approval(true));
    assert_eq!(action, reply(AppSW::Deny, &[], None));
}

#[test]
fn transaction_context_survives_other_commands() {
    let mut session = Session::new("1.2.3");
    let first = Instruction::SignTx { first_chunk: true };
    let chunk = first_chunk(4, b"ae_mainnet", &spend_with_tag(0x0c));
    session.step(command(first, &chunk));
    session.step(command(Instruction::GetVersion, &[]));
    assert_eq!(session.tx_context().account_number(), 4);
    assert_eq!(session.tx_context().tx().recipient, RECIPIENT);
    assert_eq!(session.tx_context().signing_input(), signing_input(b"ae_mainnet"));
}

#[test]
fn request_is_classified_by_its_header() {
    let mut session = Session::new("1.2.3");
    let header = ApduHeader { cla: 0xe0, ins: 6, p1: 0, p2: 0 };
    assert_eq!(session.request(header, &[]), reply(AppSW::Success, &[0, 1, 2, 3], None));
    let header = ApduHeader { cla: 0xe0, ins: 10, p1: 0, p2: 0 };
    assert_eq!(
        session.request(header, &sign_payload(3, b"hello")),
        Action::Review {
            review: Review { kind: ReviewKind::Data, fields: vec![field("Data", "hello")] }
        }
    );
    let header = ApduHeader { cla: 0xe0, ins: 4, p1: 0x80, p2: 0 };
    assert_eq!(
        session.request(header, &[1, 2, 3]),
        reply(AppSW::Success, &[], Some((StatusType::Transaction, true)))
    );
}

#[test]
fn request_with_a_header_that_selects_no_command_is_turned_down() {
    let mut session = Session::new("1.2.3");
    let first = Instruction::SignTx { first_chunk: true };
    let chunk = first_chunk(4, b"ae_mainnet", &spend_with_tag(0x0c));
    session.step(command(first, &chunk));

    let header = ApduHeader { cla: 0xe0, ins: 4, p1: 0x01, p2: 0 };
    assert_eq!(session.request(header, &chunk), reply(AppSW::WrongP1P2, &[], None));
    let header = ApduHeader { cla: 0xe0, ins: 0x33, p1: 0, p2: 0 };
    assert_eq!(session.request(header, &chunk), reply(AppSW::InsNotSupported, &[], None));
    assert!(session.is_idle());
    // The transaction context is as it was.
    assert_eq!(session.tx_context().account_number(), 4);
    assert_eq!(session.tx_context().signing_input(), signing_input(b"ae_mainnet"));
}
