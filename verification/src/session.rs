//! Opening the session that a key works in, and setting the token up where
//! the URI asks for it.
use crate::error::{backend_error, ck_error_to_backend, internal, BackendError, BackendErrorView};
use crate::host::{
    serial_read_write, HostCall, HostCallView, HostReply, HostReplyView, SessionFlags,
    SessionRole, Step, StepView, UserType,
};
use crate::uri::{Pkcs11Uri, Pkcs11UriView};
use vstd::prelude::*;
use vstd::string::*;
use vstd::utf8::encode_utf8;

verus! {

/// Which reply is awaited while a session is being opened.
#[derive(Clone, Copy, Debug, PartialEq, Eq, Structural)]
pub enum OpenState {
    /// To the initialisation of the token library.
    Initializing,
    /// To the first attempt at a session on the slot that the URI names.
    Opening,
    /// To the list of all slots.
    ListingSlots,
    /// To the initialisation of the token.
    InitializingToken,
    /// To the list of slots with a token.
    ListingTokenSlots,
    /// To the officer's session on this slot.
    OpeningOfficer(u32),
    /// To the officer's login.
    LoggingInOfficer(u32),
    /// To the setting of the user's PIN.
    SettingPin(u32),
    /// To the officer's logout.
    LoggingOutOfficer(u32),
    /// To the end of the officer's session.
    ClosingOfficer(u32),
    /// To the session on the slot where the new token is.
    Reopening,
    /// To the user's login.
    LoggingIn,
}

impl OpenState {
    /// How many more replies can come at most, this one among them.
    pub open spec fn remaining(self) -> nat {
        match self {
            OpenState::Initializing => 12,
            OpenState::Opening => 11,
            OpenState::ListingSlots => 10,
            OpenState::InitializingToken => 9,
            OpenState::ListingTokenSlots => 8,
            OpenState::OpeningOfficer(_) => 7,
            OpenState::LoggingInOfficer(_) => 6,
            OpenState::SettingPin(_) => 5,
            OpenState::LoggingOutOfficer(_) => 4,
            OpenState::ClosingOfficer(_) => 3,
            OpenState::Reopening => 2,
            OpenState::LoggingIn => 1,
        }
    }
}

/// The officer's PIN for setting a token up: `so-pin`, else the user's PIN,
/// else `1234`.
pub open spec fn officer_pin(uri: Pkcs11UriView) -> Seq<char> {
    match uri.so_pin {
        Some(p) => p,
        None => user_pin(uri),
    }
}

/// The user's PIN for setting a token up: `pin-value`, else `1234`.
pub open spec fn user_pin(uri: Pkcs11UriView) -> Seq<char> {
    match uri.pin {
        Some(p) => p,
        None => "1234"@,
    }
}

/// `uri` names a slot, by a number in the 32 bits that slot numbers have.
pub open spec fn names_slot(uri: Pkcs11UriView) -> bool {
    uri.slot_id matches Some(n) && n <= u32::MAX
}

/// A session opened: log the user in, if the URI has a PIN.
pub open spec fn login_step(uri: Pkcs11UriView) -> StepView<OpenState> {
    match uri.pin {
        Some(pin) => StepView::Call(
            OpenState::LoggingIn,
            HostCallView::Login {
                session: SessionRole::User,
                user: UserType::User,
                pin: encode_utf8(pin),
            },
        ),
        None => StepView::Done,
    }
}

/// The slot that the URI names cannot be opened and `init` asks for a token:
/// list the slots on which one can be set up.
pub open spec fn list_all_slots() -> StepView<OpenState> {
    StepView::Call(OpenState::ListingSlots, HostCallView::ListSlots { token_present: false })
}

/// What comes after a call that succeeded. A slot number beyond 32 bits names
/// a slot that cannot be opened.
pub open spec fn open_step_ok(
    uri: Pkcs11UriView,
    state: OpenState,
    slots: Seq<u32>,
) -> StepView<OpenState> {
    match state {
        OpenState::Initializing => match uri.slot_id {
            Some(n) => if n <= u32::MAX {
                StepView::Call(
                    OpenState::Opening,
                    HostCallView::OpenSession {
                        session: SessionRole::User,
                        slot: n as u32,
                        flags: serial_read_write(),
                    },
                )
            } else if uri.init {
                list_all_slots()
            } else {
                StepView::Fail(internal("slot-id is not a 32-bit number"@))
            },
            None => StepView::Fail(internal("missing slot-id"@)),
        },
        OpenState::Opening => login_step(uri),
        OpenState::ListingSlots => if slots.len() == 0 {
            StepView::Fail(internal("no PKCS#11 slots available for init"@))
        } else {
            StepView::Call(
                OpenState::InitializingToken,
                HostCallView::InitToken {
                    slot: slots[0],
                    so_pin: officer_pin(uri),
                    label: "pkcs11-bridge"@,
                },
            )
        },
        OpenState::InitializingToken => StepView::Call(
            OpenState::ListingTokenSlots,
            HostCallView::ListSlots { token_present: true },
        ),
        OpenState::ListingTokenSlots => if slots.len() == 0 {
            StepView::Fail(internal("no token slot after init"@))
        } else {
            StepView::Call(
                OpenState::OpeningOfficer(slots[0]),
                HostCallView::OpenSession {
                    session: SessionRole::Officer,
                    slot: slots[0],
                    flags: serial_read_write(),
                },
            )
        },
        OpenState::OpeningOfficer(slot) => StepView::Call(
            OpenState::LoggingInOfficer(slot),
            HostCallView::Login {
                session: SessionRole::Officer,
                user: UserType::SecurityOfficer,
                pin: encode_utf8(officer_pin(uri)),
            },
        ),
        OpenState::LoggingInOfficer(slot) => StepView::Call(
            OpenState::SettingPin(slot),
            HostCallView::InitPin {
                session: SessionRole::Officer,
                pin: encode_utf8(user_pin(uri)),
            },
        ),
        OpenState::SettingPin(slot) => StepView::Call(
            OpenState::LoggingOutOfficer(slot),
            HostCallView::Logout { session: SessionRole::Officer },
        ),
        OpenState::LoggingOutOfficer(slot) => StepView::Call(
            OpenState::ClosingOfficer(slot),
            HostCallView::CloseSession { session: SessionRole::Officer },
        ),
        OpenState::ClosingOfficer(slot) => StepView::Call(
            OpenState::Reopening,
            HostCallView::OpenSession {
                session: SessionRole::User,
                slot,
                flags: serial_read_write(),
            },
        ),
        OpenState::Reopening => login_step(uri),
        OpenState::LoggingIn => StepView::Done,
    }
}

/// What comes after a reply. It does not matter whether the initialisation of
/// the library, the officer's logout and the end of the officer's session
/// succeed. A first attempt that fails leads to a new token if the URI asks
/// for one. Any other failure ends it.
pub open spec fn open_step(uri: Pkcs11UriView, state: OpenState, reply: HostReplyView) -> StepView<
    OpenState,
> {
    match reply {
        HostReplyView::Failed(code) => match state {
            OpenState::Initializing => open_step_ok(uri, state, Seq::<u32>::empty()),
            OpenState::LoggingOutOfficer(_) => open_step_ok(uri, state, Seq::<u32>::empty()),
            OpenState::ClosingOfficer(_) => open_step_ok(uri, state, Seq::<u32>::empty()),
            OpenState::Opening => if uri.init {
                list_all_slots()
            } else {
                StepView::Fail(backend_error(code))
            },
            _ => StepView::Fail(backend_error(code)),
        },
        _ => open_step_ok(uri, state, reply.slots()),
    }
}

/// How the opening of a session starts: with the initialisation of the token
/// library.
pub open spec fn open_start() -> StepView<OpenState> {
    StepView::Call(OpenState::Initializing, HostCallView::Initialize)
}

/// The user's PIN for setting a token up.
fn user_pin_text(uri: &Pkcs11Uri) -> (pin: String)
    ensures
        pin@ == user_pin(uri@),
{
    match &uri.pin {
        Some(p) => p.clone(),
        None => "1234".to_owned(),
    }
}

/// The officer's PIN for setting a token up.
fn officer_pin_text(uri: &Pkcs11Uri) -> (pin: String)
    ensures
        pin@ == officer_pin(uri@),
{
    match &uri.so_pin {
        Some(p) => p.clone(),
        None => user_pin_text(uri),
    }
}

/// The call that opens a session on a slot.
fn open_session_call(session: SessionRole, slot: u32) -> (call: HostCall)
    ensures
        call@ == (HostCallView::OpenSession { session, slot, flags: serial_read_write() }),
{
    HostCall::OpenSession { session, slot, flags: SessionFlags { serial: true, read_write: true } }
}

/// Logs the user in, if the URI has a PIN.
fn login_next(uri: &Pkcs11Uri) -> (r: Step<OpenState>)
    ensures
        r@ == login_step(uri@),
{
    match &uri.pin {
        Some(pin) => Step::Call(
            OpenState::LoggingIn,
            HostCall::Login {
                session: SessionRole::User,
                user: UserType::User,
                pin: pin.as_str().as_bytes_vec(),
            },
        ),
        None => Step::Done,
    }
}

/// Starts to open a session. It starts the same way for every URI.
pub fn open_session_for() -> (r: Step<OpenState>)
    ensures
        r@ == open_start(),
{
    Step::Call(OpenState::Initializing, HostCall::Initialize)
}

/// Decides what comes after a reply while the session for `uri` is being opened.
pub fn open_session_step(uri: &Pkcs11Uri, state: OpenState, reply: HostReply) -> (r: Step<
    OpenState,
>)
    ensures
        r@ == open_step(uri@, state, reply@),
{
    match state {
        OpenState::Initializing => match uri.slot_id {
            Some(n) => if n <= u32::MAX as u64 {
                Step::Call(OpenState::Opening, open_session_call(SessionRole::User, n as u32))
            } else if uri.init {
                Step::Call(OpenState::ListingSlots, HostCall::ListSlots { token_present: false })
            } else {
                Step::Fail(BackendError::Internal("slot-id is not a 32-bit number".to_owned()))
            },
            None => Step::Fail(BackendError::Internal("missing slot-id".to_owned())),
        },
        OpenState::Opening => match reply {
            HostReply::Failed(code) => if uri.init {
                Step::Call(OpenState::ListingSlots, HostCall::ListSlots { token_present: false })
            } else {
                Step::Fail(ck_error_to_backend(code))
            },
            _ => login_next(uri),
        },
        OpenState::ListingSlots => match reply {
            HostReply::Failed(code) => Step::Fail(ck_error_to_backend(code)),
            HostReply::Slots(slots) => if slots.len() == 0 {
                Step::Fail(
                    BackendError::Internal("no PKCS#11 slots available for init".to_owned()),
                )
            } else {
                Step::Call(
                    OpenState::InitializingToken,
                    HostCall::InitToken {
                        slot: slots[0],
                        so_pin: officer_pin_text(uri),
                        label: "pkcs11-bridge".to_owned(),
                    },
                )
            },
            _ => Step::Fail(
                BackendError::Internal("no PKCS#11 slots available for init".to_owned()),
            ),
        },
        OpenState::InitializingToken => match reply {
            HostReply::Failed(code) => Step::Fail(ck_error_to_backend(code)),
            _ => Step::Call(
                OpenState::ListingTokenSlots,
                HostCall::ListSlots { token_present: true },
            ),
        },
        OpenState::ListingTokenSlots => match reply {
            HostReply::Failed(code) => Step::Fail(ck_error_to_backend(code)),
            HostReply::Slots(slots) => if slots.len() == 0 {
                Step::Fail(BackendError::Internal("no token slot after init".to_owned()))
            } else {
                Step::Call(
                    OpenState::OpeningOfficer(slots[0]),
                    open_session_call(SessionRole::Officer, slots[0]),
                )
            },
            _ => Step::Fail(BackendError::Internal("no token slot after init".to_owned())),
        },
        OpenState::OpeningOfficer(slot) => match reply {
            HostReply::Failed(code) => Step::Fail(ck_error_to_backend(code)),
            _ => Step::Call(
                OpenState::LoggingInOfficer(slot),
                HostCall::Login {
                    session: SessionRole::Officer,
                    user: UserType::SecurityOfficer,
                    pin: officer_pin_text(uri).as_str().as_bytes_vec(),
                },
            ),
        },
        OpenState::LoggingInOfficer(slot) => match reply {
            HostReply::Failed(code) => Step::Fail(ck_error_to_backend(code)),
            _ => Step::Call(
                OpenState::SettingPin(slot),
                HostCall::InitPin {
                    session: SessionRole::Officer,
                    pin: user_pin_text(uri).as_str().as_bytes_vec(),
                },
            ),
        },
        OpenState::SettingPin(slot) => match reply {
            HostReply::Failed(code) => Step::Fail(ck_error_to_backend(code)),
            _ => Step::Call(
                OpenState::LoggingOutOfficer(slot),
                HostCall::Logout { session: SessionRole::Officer },
            ),
        },
        OpenState::LoggingOutOfficer(slot) => Step::Call(
            OpenState::ClosingOfficer(slot),
            HostCall::CloseSession { session: SessionRole::Officer },
        ),
        OpenState::ClosingOfficer(slot) => Step::Call(
            OpenState::Reopening,
            open_session_call(SessionRole::User, slot),
        ),
        OpenState::Reopening => match reply {
            HostReply::Failed(code) => Step::Fail(ck_error_to_backend(code)),
            _ => login_next(uri),
        },
        OpenState::LoggingIn => match reply {
            HostReply::Failed(code) => Step::Fail(ck_error_to_backend(code)),
            _ => Step::Done,
        },
    }
}

// ---------------------------------------------------------------------------
// Laws
// ---------------------------------------------------------------------------

/// The calls made, and how it ended if it did.
#[verifier::ext_equal]
pub struct OpenRun {
    pub calls: Seq<HostCallView>,
    pub end: Option<Result<(), BackendErrorView>>,
}

/// The opening of a session from `step` on, as `replies` come in.
pub open spec fn open_run(
    uri: Pkcs11UriView,
    step: StepView<OpenState>,
    replies: Seq<HostReplyView>,
) -> OpenRun
    decreases replies.len(),
{
    match step {
        StepView::Call(state, call) => if replies.len() == 0 {
            OpenRun { calls: seq![call], end: None }
        } else {
            let rest = open_run(uri, open_step(uri, state, replies[0]), replies.drop_first());
            OpenRun { calls: seq![call] + rest.calls, end: rest.end }
        },
        StepView::Done => OpenRun { calls: Seq::<HostCallView>::empty(), end: Some(Ok(())) },
        StepView::Fail(e) => OpenRun { calls: Seq::<HostCallView>::empty(), end: Some(Err(e)) },
    }
}

/// `call` changes the token: it sets it up, or gives it a PIN or keys.
pub open spec fn is_provisioning(call: HostCallView) -> bool {
    match call {
        HostCallView::InitToken { .. } => true,
        HostCallView::InitPin { .. } => true,
        HostCallView::GenerateKeyPair { .. } => true,
        _ => false,
    }
}

/// Each reply brings the end nearer.
pub proof fn law_open_progresses(uri: Pkcs11UriView, state: OpenState, reply: HostReplyView)
    ensures
        open_step(uri, state, reply) matches StepView::Call(next, _) ==> next.remaining()
            < state.remaining(),
{
}

/// Opening a session comes to an end: it never takes more than twelve calls.
pub proof fn law_open_ends(uri: Pkcs11UriView, replies: Seq<HostReplyView>)
    ensures
        open_run(uri, open_start(), replies).calls.len() <= 12,
        replies.len() >= 12 ==> open_run(uri, open_start(), replies).end is Some,
{
    lemma_open_ends(uri, open_start(), replies);
}

proof fn lemma_open_ends(
    uri: Pkcs11UriView,
    step: StepView<OpenState>,
    replies: Seq<HostReplyView>,
)
    ensures
        step matches StepView::Call(state, _) ==> {
            &&& open_run(uri, step, replies).calls.len() <= state.remaining()
            &&& replies.len() >= state.remaining() ==> open_run(uri, step, replies).end is Some
        },
    decreases replies.len(),
{
    match step {
        StepView::Call(state, _) => if replies.len() > 0 {
            lemma_open_ends(uri, open_step(uri, state, replies[0]), replies.drop_first());
        },
        _ => {},
    }
}

/// Without `init` a token is never set up, whatever it replies.
pub proof fn law_nothing_provisioned_unasked(uri: Pkcs11UriView, replies: Seq<HostReplyView>)
    requires
        !uri.init,
    ensures
        forall|i: int|
            0 <= i < open_run(uri, open_start(), replies).calls.len() ==> !is_provisioning(
                #[trigger] open_run(uri, open_start(), replies).calls[i],
            ),
{
    lemma_nothing_provisioned(uri, open_start(), replies);
}

/// The states that are reached without provisioning.
spec fn is_plain(state: OpenState) -> bool {
    state == OpenState::Initializing || state == OpenState::Opening || state == OpenState::LoggingIn
}

proof fn lemma_nothing_provisioned(
    uri: Pkcs11UriView,
    step: StepView<OpenState>,
    replies: Seq<HostReplyView>,
)
    requires
        !uri.init,
        step matches StepView::Call(state, call) ==> is_plain(state) && !is_provisioning(call),
    ensures
        forall|i: int|
            0 <= i < open_run(uri, step, replies).calls.len() ==> !is_provisioning(
                #[trigger] open_run(uri, step, replies).calls[i],
            ),
    decreases replies.len(),
{
    match step {
        StepView::Call(state, call) => if replies.len() > 0 {
            let next = open_step(uri, state, replies[0]);
            lemma_nothing_provisioned(uri, next, replies.drop_first());
            let rest = open_run(uri, next, replies.drop_first());
            assert forall|i: int| 0 <= i < open_run(uri, step, replies).calls.len() implies
                !is_provisioning(#[trigger] open_run(uri, step, replies).calls[i]) by {
                if i > 0 {
                    assert(open_run(uri, step, replies).calls[i] == rest.calls[i - 1]);
                }
            }
        },
        _ => {},
    }
}

/// `call` logs the user in only with the PIN that the URI has.
pub open spec fn keeps_pin(uri: Pkcs11UriView, call: HostCallView) -> bool {
    match call {
        HostCallView::Login { session: SessionRole::User, user, pin } => user == UserType::User
            && uri.pin is Some && pin == encode_utf8(uri.pin->0),
        _ => true,
    }
}

/// The user is logged in with the URI's PIN or not at all, whatever the token
/// replies.
pub proof fn law_login_uses_the_uri_pin(uri: Pkcs11UriView, replies: Seq<HostReplyView>)
    ensures
        forall|i: int|
            0 <= i < open_run(uri, open_start(), replies).calls.len() ==> keeps_pin(
                uri,
                #[trigger] open_run(uri, open_start(), replies).calls[i],
            ),
{
    lemma_keeps_pin(uri, open_start(), replies);
}

proof fn lemma_keeps_pin(
    uri: Pkcs11UriView,
    step: StepView<OpenState>,
    replies: Seq<HostReplyView>,
)
    requires
        step matches StepView::Call(_, call) ==> keeps_pin(uri, call),
    ensures
        forall|i: int|
            0 <= i < open_run(uri, step, replies).calls.len() ==> keeps_pin(
                uri,
                #[trigger] open_run(uri, step, replies).calls[i],
            ),
    decreases replies.len(),
{
    match step {
        StepView::Call(state, call) => if replies.len() > 0 {
            let next = open_step(uri, state, replies[0]);
            lemma_keeps_pin(uri, next, replies.drop_first());
            let rest = open_run(uri, next, replies.drop_first());
            assert forall|i: int| 0 <= i < open_run(uri, step, replies).calls.len() implies
                keeps_pin(uri, #[trigger] open_run(uri, step, replies).calls[i]) by {
                if i > 0 {
                    assert(open_run(uri, step, replies).calls[i] == rest.calls[i - 1]);
                }
            }
        },
        _ => {},
    }
}

/// `call` opens a session only on the slot that the URI names.
pub open spec fn keeps_slot(uri: Pkcs11UriView, call: HostCallView) -> bool {
    match call {
        HostCallView::OpenSession { slot, .. } => uri.slot_id == Some(slot as u64),
        _ => true,
    }
}

/// Without `init` a session is opened on the slot that the URI names or not at
/// all, whatever the token replies.
pub proof fn law_no_other_slot(uri: Pkcs11UriView, replies: Seq<HostReplyView>)
    requires
        !uri.init,
    ensures
        forall|i: int|
            0 <= i < open_run(uri, open_start(), replies).calls.len() ==> keeps_slot(
                uri,
                #[trigger] open_run(uri, open_start(), replies).calls[i],
            ),
{
    lemma_keeps_slot(uri, open_start(), replies);
}

proof fn lemma_keeps_slot(
    uri: Pkcs11UriView,
    step: StepView<OpenState>,
    replies: Seq<HostReplyView>,
)
    requires
        !uri.init,
        step matches StepView::Call(state, call) ==> is_plain(state) && keeps_slot(uri, call),
    ensures
        forall|i: int|
            0 <= i < open_run(uri, step, replies).calls.len() ==> keeps_slot(
                uri,
                #[trigger] open_run(uri, step, replies).calls[i],
            ),
    decreases replies.len(),
{
    match step {
        StepView::Call(state, call) => if replies.len() > 0 {
            let next = open_step(uri, state, replies[0]);
            lemma_keeps_slot(uri, next, replies.drop_first());
            let rest = open_run(uri, next, replies.drop_first());
            assert forall|i: int| 0 <= i < open_run(uri, step, replies).calls.len() implies
                keeps_slot(uri, #[trigger] open_run(uri, step, replies).calls[i]) by {
                if i > 0 {
                    assert(open_run(uri, step, replies).calls[i] == rest.calls[i - 1]);
                }
            }
        },
        _ => {},
    }
}

/// A slot number beyond 32 bits is never opened: without `init` it is refused,
/// and with `init` a token is set up as where a slot cannot be opened.
pub proof fn law_wide_slot_is_not_opened(
    uri: Pkcs11UriView,
    first: HostReplyView,
    code: Seq<char>,
)
    requires
        uri.slot_id matches Some(n) && n > u32::MAX,
    ensures
        !uri.init ==> open_run(uri, open_start(), seq![first]) == (OpenRun {
            calls: seq![HostCallView::Initialize],
            end: Some(Err(internal("slot-id is not a 32-bit number"@))),
        }),
        uri.init ==> open_run(uri, open_start(), seq![first]) == (OpenRun {
            calls: seq![
                HostCallView::Initialize,
                HostCallView::ListSlots { token_present: false },
            ],
            end: None,
        }),
        uri.init ==> open_step(uri, OpenState::Initializing, first) == open_step(
            uri,
            OpenState::Opening,
            HostReplyView::Failed(code),
        ),
{
    reveal_with_fuel(open_run, 2);
    let calls = open_run(uri, open_start(), seq![first]).calls;
    if uri.init {
        assert(calls =~= seq![
            HostCallView::Initialize,
            HostCallView::ListSlots { token_present: false },
        ]);
    } else {
        assert(calls =~= seq![HostCallView::Initialize]);
    }
}

/// Without `init` a slot that cannot be opened is reported as the token
/// describes it, and nothing else is tried.
pub proof fn law_failed_slot_is_reported(
    uri: Pkcs11UriView,
    first: HostReplyView,
    code: Seq<char>,
)
    requires
        !uri.init,
        names_slot(uri),
    ensures
        open_run(uri, open_start(), seq![first, HostReplyView::Failed(code)]) == (OpenRun {
            calls: seq![
                HostCallView::Initialize,
                HostCallView::OpenSession {
                    session: SessionRole::User,
                    slot: uri.slot_id->0 as u32,
                    flags: serial_read_write(),
                },
            ],
            end: Some(Err(backend_error(code))),
        }),
{
    reveal_with_fuel(open_run, 3);
    let replies = seq![first, HostReplyView::Failed(code)];
    assert(replies.drop_first()[0] == HostReplyView::Failed(code));
    assert(open_run(uri, open_start(), replies).calls =~= seq![
        HostCallView::Initialize,
        HostCallView::OpenSession {
            session: SessionRole::User,
            slot: uri.slot_id->0 as u32,
            flags: serial_read_write(),
        },
    ]);
}

/// Where the slot holds a token, a session is opened on it and the user
/// logged in with the URI's PIN, or not logged in if there is none; whether
/// the library was initialised before does not matter.
pub proof fn law_opens_on_the_slot(uri: Pkcs11UriView, first: HostReplyView)
    requires
        names_slot(uri),
    ensures
        ({
            let open = HostCallView::OpenSession {
                session: SessionRole::User,
                slot: uri.slot_id->0 as u32,
                flags: serial_read_write(),
            };
            match uri.pin {
                Some(pin) => open_run(
                    uri,
                    open_start(),
                    seq![first, HostReplyView::Done, HostReplyView::Done],
                ) == (OpenRun {
                    calls: seq![
                        HostCallView::Initialize,
                        open,
                        HostCallView::Login {
                            session: SessionRole::User,
                            user: UserType::User,
                            pin: encode_utf8(pin),
                        },
                    ],
                    end: Some(Ok(())),
                }),
                None => open_run(uri, open_start(), seq![first, HostReplyView::Done]) == (OpenRun {
                    calls: seq![HostCallView::Initialize, open],
                    end: Some(Ok(())),
                }),
            }
        }),
{
    let two = seq![first, HostReplyView::Done];
    let three = seq![first, HostReplyView::Done, HostReplyView::Done];
    let step1 = open_step(uri, OpenState::Initializing, first);
    let step2 = open_step(uri, OpenState::Opening, HostReplyView::Done);
    assert(two.drop_first() =~= seq![HostReplyView::Done]);
    assert(two.drop_first().drop_first() =~= Seq::<HostReplyView>::empty());
    assert(three.drop_first() =~= seq![HostReplyView::Done, HostReplyView::Done]);
    assert(three.drop_first().drop_first() =~= seq![HostReplyView::Done]);
    reveal_with_fuel(open_run, 4);
    match uri.pin {
        Some(pin) => {
            assert(open_run(uri, open_start(), three).calls =~= seq![
                HostCallView::Initialize,
                step1->Call_1,
                step2->Call_1,
            ]);
        },
        None => {
            assert(open_run(uri, open_start(), two).calls =~= seq![
                HostCallView::Initialize,
                step1->Call_1,
            ]);
        },
    }
}

/// Where `init` asks for it and the slot cannot be opened, a token is set up:
/// initialised on the first slot offered, found again on the first slot with
/// a token, given the user's PIN by the officer, and then opened like any
/// other. It does not matter how logout and end of the officer's session go.
pub proof fn law_provisions_a_token(
    uri: Pkcs11UriView,
    first: HostReplyView,
    code: Seq<char>,
    slots: Seq<u32>,
    token_slots: Seq<u32>,
    logout: HostReplyView,
    close: HostReplyView,
)
    requires
        uri.init,
        names_slot(uri),
        slots.len() > 0,
        token_slots.len() > 0,
    ensures
        open_run(
            uri,
            open_start(),
            seq![
                first,
                HostReplyView::Failed(code),
                HostReplyView::Slots(slots),
                HostReplyView::Done,
                HostReplyView::Slots(token_slots),
                HostReplyView::Done,
                HostReplyView::Done,
                HostReplyView::Done,
                logout,
                close,
            ],
        ) == (OpenRun {
            calls: seq![
                HostCallView::Initialize,
                HostCallView::OpenSession {
                    session: SessionRole::User,
                    slot: uri.slot_id->0 as u32,
                    flags: serial_read_write(),
                },
                HostCallView::ListSlots { token_present: false },
                HostCallView::InitToken {
                    slot: slots[0],
                    so_pin: officer_pin(uri),
                    label: "pkcs11-bridge"@,
                },
                HostCallView::ListSlots { token_present: true },
                HostCallView::OpenSession {
                    session: SessionRole::Officer,
                    slot: token_slots[0],
                    flags: serial_read_write(),
                },
                HostCallView::Login {
                    session: SessionRole::Officer,
                    user: UserType::SecurityOfficer,
                    pin: encode_utf8(officer_pin(uri)),
                },
                HostCallView::InitPin {
                    session: SessionRole::Officer,
                    pin: encode_utf8(user_pin(uri)),
                },
                HostCallView::Logout { session: SessionRole::Officer },
                HostCallView::CloseSession { session: SessionRole::Officer },
                HostCallView::OpenSession {
                    session: SessionRole::User,
                    slot: token_slots[0],
                    flags: serial_read_write(),
                },
            ],
            end: None,
        }),
        open_step(uri, OpenState::Reopening, HostReplyView::Done) == login_step(uri),
{
    let r0 = seq![
        first,
        HostReplyView::Failed(code),
        HostReplyView::Slots(slots),
        HostReplyView::Done,
        HostReplyView::Slots(token_slots),
        HostReplyView::Done,
        HostReplyView::Done,
        HostReplyView::Done,
        logout,
        close,
    ];
    let t = token_slots[0];
    lemma_skip(r0);
    let s1 = open_step(uri, OpenState::Initializing, r0[0]);
    let s2 = open_step(uri, OpenState::Opening, r0[1]);
    let s3 = open_step(uri, OpenState::ListingSlots, r0[2]);
    let s4 = open_step(uri, OpenState::InitializingToken, r0[3]);
    let s5 = open_step(uri, OpenState::ListingTokenSlots, r0[4]);
    let s6 = open_step(uri, OpenState::OpeningOfficer(t), r0[5]);
    let s7 = open_step(uri, OpenState::LoggingInOfficer(t), r0[6]);
    let s8 = open_step(uri, OpenState::SettingPin(t), r0[7]);
    let s9 = open_step(uri, OpenState::LoggingOutOfficer(t), r0[8]);
    let s10 = open_step(uri, OpenState::ClosingOfficer(t), r0[9]);
    assert(open_run(uri, s10, r0.skip(10)).calls =~= seq![s10->Call_1]);
    assert(open_run(uri, s9, r0.skip(9)).calls =~= seq![s9->Call_1, s10->Call_1]);
    assert(open_run(uri, s8, r0.skip(8)).calls =~= seq![s8->Call_1, s9->Call_1, s10->Call_1]);
    let c7 = seq![s7->Call_1, s8->Call_1, s9->Call_1, s10->Call_1];
    assert(open_run(uri, s7, r0.skip(7)).calls =~= c7);
    assert(open_run(uri, s6, r0.skip(6)).calls =~= seq![s6->Call_1] + c7);
    let c5 = seq![s5->Call_1, s6->Call_1] + c7;
    assert(open_run(uri, s5, r0.skip(5)).calls =~= c5);
    assert(open_run(uri, s4, r0.skip(4)).calls =~= seq![s4->Call_1] + c5);
    let c3 = seq![s3->Call_1, s4->Call_1] + c5;
    assert(open_run(uri, s3, r0.skip(3)).calls =~= c3);
    assert(open_run(uri, s2, r0.skip(2)).calls =~= seq![s2->Call_1] + c3);
    let c1 = seq![s1->Call_1, s2->Call_1] + c3;
    assert(open_run(uri, s1, r0.skip(1)).calls =~= c1);
    assert(open_run(uri, open_start(), r0.skip(0)).calls =~= seq![HostCallView::Initialize] + c1);
}

/// Dropping one more from the front.
proof fn lemma_skip(r: Seq<HostReplyView>)
    ensures
        r.skip(0) == r,
        forall|i: int|
            #![trigger r.skip(i)]
            0 <= i < r.len() ==> r.skip(i).drop_first() == r.skip(i + 1) && r.skip(i)[0] == r[i],
{
    assert(r.skip(0) =~= r);
    assert forall|i: int| #![trigger r.skip(i)] 0 <= i < r.len() implies r.skip(i).drop_first()
        == r.skip(i + 1) && r.skip(i)[0] == r[i] by {
        assert(r.skip(i).drop_first() =~= r.skip(i + 1));
    }
}

/// Where the PINs come from: the officer's is `so-pin`, else the user's, and the
/// user's is `pin-value`, else `1234`.
pub proof fn law_pins_come_from_the_uri(uri: Pkcs11UriView)
    ensures
        uri.pin matches Some(pin) ==> user_pin(uri) == pin,
        uri.pin is None ==> user_pin(uri) == "1234"@,
        uri.so_pin matches Some(pin) ==> officer_pin(uri) == pin,
        uri.so_pin is None ==> officer_pin(uri) == user_pin(uri),
{
}

/// The first session is opened on the slot with the number in the URI, whatever
/// the initialisation of the library gave; without a number there is none.
pub proof fn law_first_session(uri: Pkcs11UriView, first: HostReplyView)
    ensures
        uri.slot_id matches Some(n) && n <= 0xffff_ffff ==> open_step(
            uri,
            OpenState::Initializing,
            first,
        ) == StepView::Call(
            OpenState::Opening,
            HostCallView::OpenSession {
                session: SessionRole::User,
                slot: uri.slot_id->0 as u32,
                flags: SessionFlags { serial: true, read_write: true },
            },
        ),
        uri.slot_id is None ==> open_step(uri, OpenState::Initializing, first) == StepView::<
            OpenState,
        >::Fail(internal("missing slot-id"@)),
        open_start() == StepView::Call(OpenState::Initializing, HostCallView::Initialize),
{
}

/// Once a session is open the user is logged in with the PIN in the URI, in
/// UTF-8, if there is one, and that is the end; this holds for the slot of the
/// URI and for that of a new token alike.
pub proof fn law_open_session_logs_in(uri: Pkcs11UriView, reply: HostReplyView)
    requires
        !(reply is Failed),
    ensures
        open_step(uri, OpenState::Opening, reply) == (match uri.pin {
            Some(pin) => StepView::Call(
                OpenState::LoggingIn,
                HostCallView::Login {
                    session: SessionRole::User,
                    user: UserType::User,
                    pin: encode_utf8(pin),
                },
            ),
            None => StepView::Done,
        }),
        open_step(uri, OpenState::Reopening, reply) == open_step(uri, OpenState::Opening, reply),
        open_step(uri, OpenState::LoggingIn, reply) == StepView::<OpenState>::Done,
{
}

/// How a token is set up, step by step, for every URI: on the first slot that is
/// listed, with the officer's PIN and the bridge's label; found again on the
/// first slot with a token; there the officer logs in, sets the user's PIN, logs
/// out and closes; and the user's session is opened on that same slot.
pub proof fn law_token_is_set_up(
    uri: Pkcs11UriView,
    slots: Seq<u32>,
    slot: u32,
    reply: HostReplyView,
    any: HostReplyView,
)
    requires
        slots.len() > 0,
        !(reply is Failed),
    ensures
        open_step(uri, OpenState::ListingSlots, HostReplyView::Slots(slots)) == StepView::Call(
            OpenState::InitializingToken,
            HostCallView::InitToken {
                slot: slots[0],
                so_pin: officer_pin(uri),
                label: "pkcs11-bridge"@,
            },
        ),
        open_step(uri, OpenState::InitializingToken, reply) == StepView::Call(
            OpenState::ListingTokenSlots,
            HostCallView::ListSlots { token_present: true },
        ),
        open_step(uri, OpenState::ListingTokenSlots, HostReplyView::Slots(slots)) == StepView::Call(
            OpenState::OpeningOfficer(slots[0]),
            HostCallView::OpenSession {
                session: SessionRole::Officer,
                slot: slots[0],
                flags: SessionFlags { serial: true, read_write: true },
            },
        ),
        open_step(uri, OpenState::OpeningOfficer(slot), reply) == StepView::Call(
            OpenState::LoggingInOfficer(slot),
            HostCallView::Login {
                session: SessionRole::Officer,
                user: UserType::SecurityOfficer,
                pin: encode_utf8(officer_pin(uri)),
            },
        ),
        open_step(uri, OpenState::LoggingInOfficer(slot), reply) == StepView::Call(
            OpenState::SettingPin(slot),
            HostCallView::InitPin {
                session: SessionRole::Officer,
                pin: encode_utf8(user_pin(uri)),
            },
        ),
        open_step(uri, OpenState::SettingPin(slot), reply) == StepView::Call(
            OpenState::LoggingOutOfficer(slot),
            HostCallView::Logout { session: SessionRole::Officer },
        ),
        open_step(uri, OpenState::LoggingOutOfficer(slot), any) == StepView::Call(
            OpenState::ClosingOfficer(slot),
            HostCallView::CloseSession { session: SessionRole::Officer },
        ),
        open_step(uri, OpenState::ClosingOfficer(slot), any) == StepView::Call(
            OpenState::Reopening,
            HostCallView::OpenSession {
                session: SessionRole::User,
                slot,
                flags: SessionFlags { serial: true, read_write: true },
            },
        ),
{
}

/// A token cannot be set up where no slot is listed, or no slot with a token
/// afterwards; a reply that lists none counts as an empty list.
pub proof fn law_set_up_needs_slots(uri: Pkcs11UriView, reply: HostReplyView)
    requires
        !(reply is Failed),
        reply is Slots ==> reply->Slots_0.len() == 0,
    ensures
        open_step(uri, OpenState::ListingSlots, reply) == StepView::<OpenState>::Fail(
            internal("no PKCS#11 slots available for init"@),
        ),
        open_step(uri, OpenState::ListingTokenSlots, reply) == StepView::<OpenState>::Fail(
            internal("no token slot after init"@),
        ),
{
}

/// What a failed call means: the error is reported as the token describes it,
/// except that a first attempt leads to a new token where `init` asks for one.
pub proof fn law_open_failures_are_reported(uri: Pkcs11UriView, state: OpenState, code: Seq<char>)
    requires
        state != OpenState::Initializing,
        !(state is LoggingOutOfficer),
        !(state is ClosingOfficer),
    ensures
        state == OpenState::Opening && uri.init ==> open_step(
            uri,
            state,
            HostReplyView::Failed(code),
        ) == StepView::Call(
            OpenState::ListingSlots,
            HostCallView::ListSlots { token_present: false },
        ),
        !(state == OpenState::Opening && uri.init) ==> open_step(
            uri,
            state,
            HostReplyView::Failed(code),
        ) == StepView::<OpenState>::Fail(backend_error(code)),
{
}

} // verus!
