//! The command state machine.
//!
//! The device owns the transport, the screen and the key. A [`Session`]
//! owns the decisions: it is handed each thing that happens as an
//! [`Event`] and answers with the one [`Action`] that the device carries
//! out next. The result of that action comes back as the next event.
//!
//! A command starts a sequence and a reply ends it. In between the session
//! may ask for a public key, for the operator's approval and for a
//! signature, in that order. It asks for a signature only in answer to an
//! approval.

use vstd::prelude::*;
use vstd::string::StringExecFns;
use crate::handlers::get_address::{
    account_address, account_number_of, address_reply, address_reply_of, handler_get_address,
    lemma_account_address_fits, public_key_address,
};
use crate::handlers::get_version::{handler_get_version, version_reply};
use crate::handlers::sign_data::{handler_sign_data, sign_request};
use crate::handlers::sign_msg::{handler_sign_message, message_digest, sign_message};
use crate::handlers::sign_tx::{
    handler_sign_tx, review_sign_tx, sign_tx_step, spend_summary, tx_header, TxContext,
    TxContextView, TxStep,
};
use crate::hash::blake2b_digest;
use crate::instruction::{
    instruction_of, status_screen, status_screen_of, ApduHeader, Instruction, StatusScreen,
};
use crate::review::{
    address_review, address_review_of, data_review, data_review_of, message_review,
    message_review_of, tx_review, tx_review_of, Review, ReviewView,
};
use crate::status::AppSW;

verus! {

/// What happened on the device.
#[derive(Debug)]
pub enum Event {
    /// A command arrived with its payload.
    Command { instruction: Instruction, data: Vec<u8> },
    /// The key store answered: the public key, or `None` where the
    /// derivation failed.
    PublicKey(Option<[u8; 65]>),
    /// The operator decided.
    Approval(bool),
    /// The key store answered: the signature, or `None` where signing
    /// failed.
    Signature(Option<[u8; 64]>),
}

/// An event, as mathematical values.
pub enum EventView {
    Command { instruction: Instruction, data: Seq<u8> },
    PublicKey(Option<Seq<u8>>),
    Approval(bool),
    Signature(Option<Seq<u8>>),
}

impl View for Event {
    type V = EventView;

    open spec fn view(&self) -> EventView {
        match self {
            Event::Command { instruction, data } => EventView::Command {
                instruction: *instruction,
                data: data@,
            },
            Event::PublicKey(Some(key)) => EventView::PublicKey(Some(key@)),
            Event::PublicKey(None) => EventView::PublicKey(None),
            Event::Approval(approved) => EventView::Approval(*approved),
            Event::Signature(Some(signature)) => EventView::Signature(Some(signature@)),
            Event::Signature(None) => EventView::Signature(None),
        }
    }
}

/// What the device does next.
#[derive(Debug, PartialEq, Eq)]
pub enum Action {
    /// Send the status with the body, show the closing screen if there is
    /// one, and wait for the next command.
    Reply { status: AppSW, body: Vec<u8>, screen: Option<StatusScreen> },
    /// Derive the public key of the account.
    DerivePublicKey { account_number: u32 },
    /// Show the review and wait for the operator.
    Review { review: Review },
    /// Sign the message with the key of the account.
    Sign { account_number: u32, message: Vec<u8> },
}

/// An action, as mathematical values.
pub enum ActionView {
    Reply { status: AppSW, body: Seq<u8>, screen: Option<StatusScreen> },
    DerivePublicKey { account_number: u32 },
    Review { review: ReviewView },
    Sign { account_number: u32, message: Seq<u8> },
}

impl View for Action {
    type V = ActionView;

    open spec fn view(&self) -> ActionView {
        match self {
            Action::Reply { status, body, screen } => ActionView::Reply {
                status: *status,
                body: body@,
                screen: *screen,
            },
            Action::DerivePublicKey { account_number } => ActionView::DerivePublicKey {
                account_number: *account_number,
            },
            Action::Review { review } => ActionView::Review { review: review@ },
            Action::Sign { account_number, message } => ActionView::Sign {
                account_number: *account_number,
                message: message@,
            },
        }
    }
}

/// What a session waits for.
pub enum Stage {
    /// The next command.
    Idle,
    /// The public key for GetAddress.
    PublicKey { confirm_needed: bool },
    /// The operator's decision on an address.
    AddressReview { address: Seq<u8> },
    /// The operator's decision on data or a message; `message` is what is
    /// signed once approved, `fail` the status where signing fails.
    SignReview { account_number: u32, message: Seq<u8>, fail: AppSW },
    /// The operator's decision on the transaction in the context.
    TxReview,
    /// The signature; `fail` is the status where signing fails.
    Signature { fail: AppSW },
}

/// A session, as mathematical values.
pub struct SessionView {
    /// The version of the application.
    pub version: Seq<char>,
    /// The transaction context.
    pub tx: TxContextView,
    /// The command that is being answered, or was answered last.
    pub instruction: Instruction,
    /// What the session waits for.
    pub stage: Stage,
}

impl SessionView {
    /// The end of a sequence: the session is idle again and the device
    /// replies.
    pub open spec fn reply(self, status: AppSW, body: Seq<u8>) -> (SessionView, ActionView) {
        (
            SessionView { stage: Stage::Idle, ..self },
            ActionView::Reply {
                status,
                body,
                screen: status_screen_of(self.instruction, true, status),
            },
        )
    }

    /// The end of a sequence with what a handler returned: its body under
    /// `Success`, or its error and no body.
    pub open spec fn reply_result(self, result: Result<Seq<u8>, AppSW>) -> (
        SessionView,
        ActionView,
    ) {
        match result {
            Ok(body) => self.reply(AppSW::Success, body),
            Err(status) => self.reply(status, Seq::empty()),
        }
    }

    /// The start of a sequence. What the session waited for is given up.
    pub open spec fn command(self, instruction: Instruction, data: Seq<u8>) -> (
        SessionView,
        ActionView,
    ) {
        let session = SessionView { instruction, stage: Stage::Idle, ..self };
        match instruction {
            Instruction::GetVersion => session.reply_result(version_reply(self.version)),
            Instruction::GetAddress { confirm_needed } => match account_number_of(data) {
                Ok(account_number) => (
                    SessionView { stage: Stage::PublicKey { confirm_needed }, ..session },
                    ActionView::DerivePublicKey { account_number },
                ),
                Err(status) => session.reply(status, Seq::empty()),
            },
            Instruction::SignData => match sign_request(data, AppSW::DataWrongLength) {
                Ok(request) => (
                    SessionView {
                        stage: Stage::SignReview {
                            account_number: request.account_number,
                            message: request.payload,
                            fail: AppSW::DataSignFail,
                        },
                        ..session
                    },
                    ActionView::Review { review: data_review_of(request.payload) },
                ),
                Err(status) => session.reply(status, Seq::empty()),
            },
            Instruction::SignMsg => match sign_request(data, AppSW::MsgWrongLength) {
                Ok(request) => match message_review_of(request.payload) {
                    Ok(review) => (
                        SessionView {
                            stage: Stage::SignReview {
                                account_number: request.account_number,
                                message: message_digest(request.payload),
                                fail: AppSW::MsgSignFail,
                            },
                            ..session
                        },
                        ActionView::Review { review },
                    ),
                    Err(status) => session.reply(status, Seq::empty()),
                },
                Err(status) => session.reply(status, Seq::empty()),
            },
            Instruction::SignTx { first_chunk } => {
                let (tx, result) = sign_tx_step(self.tx, first_chunk, data);
                let session = SessionView { tx, ..session };
                match result {
                    Ok(TxStep::Accumulated) => session.reply(AppSW::Success, Seq::empty()),
                    Ok(TxStep::Review) => (
                        SessionView { stage: Stage::TxReview, ..session },
                        ActionView::Review { review: tx_review_of(tx.tx) },
                    ),
                    Err(status) => session.reply(status, Seq::empty()),
                }
            },
        }
    }

    /// The start of a sequence from a request as it arrives: its header
    /// selects the command. A header that selects none is answered with its
    /// error before anything else is looked at.
    pub open spec fn request(self, header: ApduHeader, data: Seq<u8>) -> (
        SessionView,
        ActionView,
    ) {
        match instruction_of(header) {
            Ok(instruction) => self.command(instruction, data),
            Err(status) => self.reply(status, Seq::empty()),
        }
    }

    /// The session after an event, and what the device does next.
    ///
    /// An event that the session does not wait for ends the sequence with
    /// `Deny`, but for a command, which starts a new one.
    pub open spec fn step(self, event: EventView) -> (SessionView, ActionView) {
        match (event, self.stage) {
            (EventView::Command { instruction, data }, _) => self.command(instruction, data),
            (EventView::PublicKey(None), Stage::PublicKey { .. }) => self.reply(
                AppSW::KeyDeriveFail,
                Seq::empty(),
            ),
            (EventView::PublicKey(Some(key)), Stage::PublicKey { confirm_needed }) => {
                let address = account_address(key);
                if confirm_needed {
                    (
                        SessionView {
                            stage: Stage::AddressReview { address: encode_text(address) },
                            ..self
                        },
                        ActionView::Review { review: address_review_of(address) },
                    )
                } else {
                    self.reply_result(address_reply_of(encode_text(address)))
                }
            },
            (EventView::Approval(true), Stage::AddressReview { address }) => self.reply_result(
                address_reply_of(address),
            ),
            (
                EventView::Approval(true),
                Stage::SignReview { account_number, message, fail },
            ) => (
                SessionView { stage: Stage::Signature { fail }, ..self },
                ActionView::Sign { account_number, message },
            ),
            (EventView::Approval(true), Stage::TxReview) => (
                SessionView { stage: Stage::Signature { fail: AppSW::TxSignFail }, ..self },
                ActionView::Sign {
                    account_number: self.tx.account_number,
                    message: self.tx.signing_input(),
                },
            ),
            (EventView::Signature(Some(signature)), Stage::Signature { .. }) => self.reply(
                AppSW::Success,
                signature,
            ),
            (EventView::Signature(None), Stage::Signature { fail }) => self.reply(
                fail,
                Seq::empty(),
            ),
            _ => self.reply(AppSW::Deny, Seq::empty()),
        }
    }
}

/// The bytes of a text on the wire.
pub open spec fn encode_text(text: Seq<char>) -> Seq<u8> {
    vstd::utf8::encode_utf8(text)
}

/// What a session waits for.
enum Pending {
    Idle,
    PublicKey { confirm_needed: bool },
    AddressReview { address: String },
    SignReview { account_number: u32, message: Vec<u8>, fail: AppSW },
    TxReview,
    Signature { fail: AppSW },
}

impl View for Pending {
    type V = Stage;

    closed spec fn view(&self) -> Stage {
        match self {
            Pending::Idle => Stage::Idle,
            Pending::PublicKey { confirm_needed } => Stage::PublicKey {
                confirm_needed: *confirm_needed,
            },
            Pending::AddressReview { address } => Stage::AddressReview {
                address: encode_text(address@),
            },
            Pending::SignReview { account_number, message, fail } => Stage::SignReview {
                account_number: *account_number,
                message: message@,
                fail: *fail,
            },
            Pending::TxReview => Stage::TxReview,
            Pending::Signature { fail } => Stage::Signature { fail: *fail },
        }
    }
}

/// The one session of the device: the transaction context and the place in
/// the sequence of the command that is being answered.
pub struct Session {
    version: String,
    tx_ctx: TxContext,
    instruction: Instruction,
    pending: Pending,
}

impl View for Session {
    type V = SessionView;

    closed spec fn view(&self) -> SessionView {
        SessionView {
            version: self.version@,
            tx: self.tx_ctx@,
            instruction: self.instruction,
            stage: self.pending@,
        }
    }
}

/// Copies an array of bytes into a vector.
fn bytes_of<const N: usize>(array: &[u8; N]) -> (bytes: Vec<u8>)
    ensures
        bytes@ == array@,
{
    let mut bytes: Vec<u8> = Vec::new();
    let mut i: usize = 0;
    while i < N
        invariant
            i <= N,
            array@.len() == N,
            bytes@ == array@.take(i as int),
        decreases N - i,
    {
        bytes.push(array[i]);
        i += 1;
    }
    bytes
}

impl Session {
    /// A session of the application of version `version`, idle and with an
    /// empty transaction context.
    pub fn new(version: &str) -> (session: Session)
        ensures
            session@ == (SessionView {
                version: version@,
                tx: TxContextView::empty(),
                instruction: Instruction::GetVersion,
                stage: Stage::Idle,
            }),
    {
        Session {
            version: String::from_str(version),
            tx_ctx: TxContext::new(),
            instruction: Instruction::GetVersion,
            pending: Pending::Idle,
        }
    }

    /// The transaction context.
    pub fn tx_context(&self) -> (ctx: &TxContext)
        ensures
            ctx@ == self@.tx,
    {
        &self.tx_ctx
    }

    /// Whether the session waits for the next command.
    pub fn is_idle(&self) -> (idle: bool)
        ensures
            idle == (self@.stage is Idle),
    {
        match self.pending {
            Pending::Idle => true,
            _ => false,
        }
    }

    /// Ends the sequence with a reply.
    fn reply(&mut self, status: AppSW, body: Vec<u8>) -> (action: Action)
        ensures
            (final(self)@, action@) == old(self)@.reply(status, body@),
    {
        self.pending = Pending::Idle;
        let screen = status_screen(&self.instruction, self.tx_ctx.is_finished(), status);
        Action::Reply { status, body, screen }
    }

    /// Ends the sequence with a status and no body.
    fn reply_status(&mut self, status: AppSW) -> (action: Action)
        ensures
            (final(self)@, action@) == old(self)@.reply(status, Seq::empty()),
    {
        self.reply(status, Vec::new())
    }

    /// Ends the sequence with the address, or with the reason why it
    /// cannot be sent.
    fn reply_address(&mut self, address: &String) -> (action: Action)
        ensures
            (final(self)@, action@) == old(self)@.reply_result(
                address_reply_of(encode_text(address@)),
            ),
    {
        match address_reply(address.as_str()) {
            Ok(body) => self.reply(AppSW::Success, body),
            Err(status) => self.reply_status(status),
        }
    }

    /// Starts the sequence of a command.
    fn command(&mut self, instruction: Instruction, data: &[u8]) -> (action: Action)
        ensures
            (final(self)@, action@) == old(self)@.command(instruction, data@),
    {
        self.instruction = instruction;
        self.pending = Pending::Idle;
        match instruction {
            Instruction::GetVersion => {
                match handler_get_version(self.version.as_str()) {
                    Ok(body) => self.reply(AppSW::Success, body),
                    Err(status) => self.reply_status(status),
                }
            },
            Instruction::GetAddress { confirm_needed } => {
                match handler_get_address(data) {
                    Ok(account_number) => {
                        self.pending = Pending::PublicKey { confirm_needed };
                        Action::DerivePublicKey { account_number }
                    },
                    Err(status) => self.reply_status(status),
                }
            },
            Instruction::SignData => {
                match handler_sign_data(data) {
                    Ok((account_number, payload)) => {
                        let review = data_review(payload);
                        self.pending = Pending::SignReview {
                            account_number,
                            message: vstd::slice::slice_to_vec(payload),
                            fail: AppSW::DataSignFail,
                        };
                        Action::Review { review }
                    },
                    Err(status) => self.reply_status(status),
                }
            },
            Instruction::SignMsg => {
                match handler_sign_message(data) {
                    Ok((account_number, payload)) => {
                        match message_review(payload) {
                            Ok(review) => {
                                let hash = sign_message(payload);
                                self.pending = Pending::SignReview {
                                    account_number,
                                    message: bytes_of(&hash),
                                    fail: AppSW::MsgSignFail,
                                };
                                Action::Review { review }
                            },
                            Err(status) => self.reply_status(status),
                        }
                    },
                    Err(status) => self.reply_status(status),
                }
            },
            Instruction::SignTx { first_chunk } => {
                match handler_sign_tx(data, first_chunk, &mut self.tx_ctx) {
                    Ok(TxStep::Accumulated) => self.reply_status(AppSW::Success),
                    Ok(TxStep::Review) => {
                        let review = tx_review(self.tx_ctx.tx());
                        self.pending = Pending::TxReview;
                        Action::Review { review }
                    },
                    Err(status) => self.reply_status(status),
                }
            },
        }
    }

    /// Takes a request as it arrives and says what the device does next.
    pub fn request(&mut self, header: ApduHeader, data: &[u8]) -> (action: Action)
        ensures
            (final(self)@, action@) == old(self)@.request(header, data@),
    {
        match Instruction::try_from(header) {
            Ok(instruction) => self.command(instruction, data),
            Err(status) => self.reply_status(status),
        }
    }

    /// Takes an event and says what the device does next.
    pub fn step(&mut self, event: Event) -> (action: Action)
        ensures
            (final(self)@, action@) == old(self)@.step(event@),
    {
        let mut pending = Pending::Idle;
        core::mem::swap(&mut self.pending, &mut pending);
        match (event, pending) {
            (Event::Command { instruction, data }, _) => self.command(instruction, data.as_slice()),
            (Event::PublicKey(None), Pending::PublicKey { confirm_needed: _ }) => self.reply_status(
                AppSW::KeyDeriveFail,
            ),
            (Event::PublicKey(Some(key)), Pending::PublicKey { confirm_needed }) => {
                let address = public_key_address(&key);
                if confirm_needed {
                    let review = address_review(&address);
                    self.pending = Pending::AddressReview { address };
                    Action::Review { review }
                } else {
                    self.reply_address(&address)
                }
            },
            (Event::Approval(true), Pending::AddressReview { address }) => self.reply_address(
                &address,
            ),
            (Event::Approval(true), Pending::SignReview { account_number, message, fail }) => {
                self.pending = Pending::Signature { fail };
                Action::Sign { account_number, message }
            },
            (Event::Approval(approved), Pending::TxReview) => {
                match review_sign_tx(&self.tx_ctx, approved) {
                    Ok(message) => {
                        self.pending = Pending::Signature { fail: AppSW::TxSignFail };
                        Action::Sign { account_number: self.tx_ctx.account_number(), message }
                    },
                    Err(status) => self.reply_status(status),
                }
            },
            (Event::Signature(Some(signature)), Pending::Signature { fail: _ }) => {
                let body = bytes_of(&signature);
                self.reply(AppSW::Success, body)
            },
            (Event::Signature(None), Pending::Signature { fail }) => self.reply_status(fail),
            _ => self.reply_status(AppSW::Deny),
        }
    }
}

/// A denial ends the sequence with `Deny` and nothing is signed: whatever
/// the session waited for, it is idle afterwards, the reply has no body,
/// and the transaction context is as it was.
pub proof fn lemma_denial_signs_nothing(session: SessionView)
    ensures
        ({
            let (after, action) = session.step(EventView::Approval(false));
            &&& action == ActionView::Reply {
                status: AppSW::Deny,
                body: Seq::empty(),
                screen: status_screen_of(session.instruction, true, AppSW::Deny),
            }
            &&& after == SessionView { stage: Stage::Idle, ..session }
        }),
{
}

/// The device is asked to sign only in answer to an approval, and only
/// while a review is open. So without an approval nothing is ever signed,
/// and one review leads to at most one signature.
pub proof fn lemma_sign_needs_approval(session: SessionView, event: EventView)
    requires
        session.step(event).1 is Sign,
    ensures
        event == EventView::Approval(true),
        session.stage is SignReview || session.stage is TxReview,
        session.step(event).0.stage is Signature,
{
}

/// The operator is asked once for each command: a review is opened only by
/// a command, or by the public key that GetAddress waited for, and never
/// while the session answers the operator or the key store's signature.
pub proof fn lemma_review_needs_command(session: SessionView, event: EventView)
    requires
        session.step(event).1 is Review,
    ensures
        event is Command || (event is PublicKey && session.stage is PublicKey),
{
}

/// A request whose header selects no command is turned down before any
/// handler runs: the reply carries the error of the header and no body,
/// nothing is shown, and the transaction context is as it was.
pub proof fn lemma_invalid_request_changes_nothing(
    session: SessionView,
    header: ApduHeader,
    data: Seq<u8>,
)
    requires
        instruction_of(header) is Err,
    ensures
        ({
            let (after, action) = session.request(header, data);
            let status = instruction_of(header)->Err_0;
            &&& status == AppSW::WrongP1P2 || status == AppSW::InsNotSupported
            &&& action == ActionView::Reply { status, body: Seq::empty(), screen: None }
            &&& after == SessionView { stage: Stage::Idle, ..session }
        }),
{
}

/// The first chunk of a spend transaction, approved and signed: the
/// operator reviews the decoded transaction, the key of the account in the
/// header signs the network identifier followed by the digest of exactly
/// the bytes behind the header, and the signature is the body of the reply.
pub proof fn lemma_sign_tx_session(session: SessionView, first: Seq<u8>, signature: Seq<u8>)
    requires
        sign_tx_step(session.tx, true, first).1 is Ok,
    ensures
        ({
            let header = tx_header(first)->0;
            let tx_bytes = first.skip(header.len() as int);
            let (reviewing, shown) = session.step(
                EventView::Command {
                    instruction: Instruction::SignTx { first_chunk: true },
                    data: first,
                },
            );
            let (signing, asked) = reviewing.step(EventView::Approval(true));
            let (done, sent) = signing.step(EventView::Signature(Some(signature)));
            &&& spend_summary(tx_bytes) is Ok
            &&& shown == ActionView::Review { review: tx_review_of(spend_summary(tx_bytes)->Ok_0) }
            &&& asked == ActionView::Sign {
                account_number: header.account_number,
                message: header.network_id + blake2b_digest(tx_bytes),
            }
            &&& sent matches ActionView::Reply { status, body, .. } && status == AppSW::Success
                && body == signature
            &&& done.stage is Idle
        }),
{
}

/// GetAddress from request to reply: the key of the account in the request
/// is asked for, and once it is there the address goes out, at once where
/// no confirmation was asked for and after the operator's approval
/// otherwise. The address is the length of its text in one byte and then
/// the text, and it always fits.
pub proof fn lemma_get_address_session(
    session: SessionView,
    confirm_needed: bool,
    data: Seq<u8>,
    key: Seq<u8>,
)
    requires
        data.len() == 4,
    ensures
        ({
            let address = encode_text(account_address(key));
            let instruction = Instruction::GetAddress { confirm_needed };
            let (deriving, asked) = session.step(EventView::Command { instruction, data });
            let (next, shown) = deriving.step(EventView::PublicKey(Some(key)));
            let (done, sent) = if confirm_needed {
                next.step(EventView::Approval(true))
            } else {
                (next, shown)
            };
            &&& asked == ActionView::DerivePublicKey {
                account_number: account_number_of(data)->Ok_0,
            }
            &&& confirm_needed ==> shown == ActionView::Review {
                review: address_review_of(account_address(key)),
            }
            &&& address.len() <= 111
            &&& sent matches ActionView::Reply { status, body, .. } && status == AppSW::Success
                && body == seq![address.len() as u8] + address
            &&& done.stage is Idle
        }),
{
    lemma_account_address_fits(key);
}

/// SignData and SignMsg from request to reply: the operator reviews the
/// payload, and once approved the key of the account in the request signs,
/// for SignData the payload as it stands and for SignMsg the digest of the
/// message behind its prefix. The signature is the body of the reply.
pub proof fn lemma_sign_payload_session(
    session: SessionView,
    message: bool,
    data: Seq<u8>,
    signature: Seq<u8>,
)
    requires
        sign_request(data, AppSW::Deny) is Ok,
        message ==> message_review_of(sign_request(data, AppSW::Deny)->Ok_0.payload) is Ok,
    ensures
        ({
            let request = sign_request(data, AppSW::Deny)->Ok_0;
            let instruction = if message {
                Instruction::SignMsg
            } else {
                Instruction::SignData
            };
            let (reviewing, shown) = session.step(EventView::Command { instruction, data });
            let (signing, asked) = reviewing.step(EventView::Approval(true));
            let (done, sent) = signing.step(EventView::Signature(Some(signature)));
            &&& shown == ActionView::Review {
                review: if message {
                    message_review_of(request.payload)->Ok_0
                } else {
                    data_review_of(request.payload)
                },
            }
            &&& asked == ActionView::Sign {
                account_number: request.account_number,
                message: if message {
                    message_digest(request.payload)
                } else {
                    request.payload
                },
            }
            &&& sent matches ActionView::Reply { status, body, .. } && status == AppSW::Success
                && body == signature
            &&& done.stage is Idle
        }),
{
}

/// A further chunk of a transaction is taken into the hash and
/// acknowledged at once: no review, no signature.
pub proof fn lemma_continuation_is_acknowledged(session: SessionView, data: Seq<u8>)
    ensures
        ({
            let instruction = Instruction::SignTx { first_chunk: false };
            let (after, action) = session.step(EventView::Command { instruction, data });
            &&& action == ActionView::Reply {
                status: AppSW::Success,
                body: Seq::empty(),
                screen: status_screen_of(instruction, true, AppSW::Success),
            }
            &&& after == SessionView {
                tx: TxContextView { hashed: session.tx.hashed + data, ..session.tx },
                instruction,
                stage: Stage::Idle,
                ..session
            }
        }),
{
}

/// The session after a run of events, and what the device was told to do
/// along the way.
pub open spec fn run(session: SessionView, events: Seq<EventView>) -> (
    SessionView,
    Seq<ActionView>,
)
    decreases events.len(),
{
    if events.len() == 0 {
        (session, Seq::empty())
    } else {
        let (before, actions) = run(session, events.drop_last());
        let (after, action) = before.step(events.last());
        (after, actions.push(action))
    }
}

/// How often the device was told to sign.
pub open spec fn signatures_asked(actions: Seq<ActionView>) -> nat
    decreases actions.len(),
{
    if actions.len() == 0 {
        0
    } else {
        signatures_asked(actions.drop_last()) + if actions.last() is Sign {
            1nat
        } else {
            0nat
        }
    }
}

/// How often the device was told to show a review.
pub open spec fn reviews_shown(actions: Seq<ActionView>) -> nat
    decreases actions.len(),
{
    if actions.len() == 0 {
        0
    } else {
        reviews_shown(actions.drop_last()) + if actions.last() is Review {
            1nat
        } else {
            0nat
        }
    }
}

/// How often the operator approved.
pub open spec fn approvals_given(events: Seq<EventView>) -> nat
    decreases events.len(),
{
    if events.len() == 0 {
        0
    } else {
        approvals_given(events.drop_last()) + if events.last() == EventView::Approval(true) {
            1nat
        } else {
            0nat
        }
    }
}

/// Whether a review of something to sign is open.
pub open spec fn review_is_open(stage: Stage) -> bool {
    stage is SignReview || stage is TxReview
}

/// Over any run of events, from any state: the device is told to sign at
/// most once for each approval of the operator, and at most once for each
/// review that it showed, counting the review that was open at the start.
/// So a session that starts idle never signs what was not shown and
/// approved, and never signs the same review twice.
pub proof fn lemma_run_signs_what_was_approved(session: SessionView, events: Seq<EventView>)
    ensures
        ({
            let (after, actions) = run(session, events);
            let open_before: nat = if review_is_open(session.stage) {
                1
            } else {
                0
            };
            let open_after: nat = if review_is_open(after.stage) {
                1
            } else {
                0
            };
            &&& actions.len() == events.len()
            &&& signatures_asked(actions) <= approvals_given(events)
            &&& signatures_asked(actions) + open_after <= reviews_shown(actions) + open_before
        }),
    decreases events.len(),
{
    if events.len() > 0 {
        lemma_run_signs_what_was_approved(session, events.drop_last());
        let (before, earlier) = run(session, events.drop_last());
        let (after, action) = before.step(events.last());
        assert(earlier.push(action).drop_last() =~= earlier);
    }
}

} // verus!
