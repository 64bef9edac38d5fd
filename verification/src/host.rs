//! The conversation with the token.
//!
//! An operation on a key is a sequence of calls to the token. What to call
//! next is decided here, one step at a time: a step takes the reply to the
//! last call and names the next one, or ends the operation. Whoever talks to
//! the token makes the call and hands the reply back.
use crate::error::{BackendError, BackendErrorView};
use crate::mech::Mechanism;
use vstd::prelude::*;

verus! {

/// Which session a call is about.
#[derive(Clone, Copy, Debug, PartialEq, Eq, Structural)]
pub enum SessionRole {
    /// The session that the key works in.
    User,
    /// The session in which the security officer sets the token up.
    Officer,
}

/// Who logs in.
#[derive(Clone, Copy, Debug, PartialEq, Eq, Structural)]
pub enum UserType {
    User,
    SecurityOfficer,
}

/// How to open a session.
#[derive(Clone, Copy, Debug, PartialEq, Eq, Structural)]
pub struct SessionFlags {
    pub serial: bool,
    pub read_write: bool,
}

/// Every session is serial and may write.
pub open spec fn serial_read_write() -> SessionFlags {
    SessionFlags { serial: true, read_write: true }
}

/// Which half of the key pair a call is about.
#[derive(Clone, Copy, Debug, PartialEq, Eq, Structural)]
pub enum KeyHalf {
    Private,
    Public,
}

/// The value of an attribute.
#[derive(Debug)]
pub enum AttributeValue {
    ObjectKind(u32),
    KeyKind(u32),
    Uint32(u32),
    Boolean(bool),
    ByteString(Vec<u8>),
    /// A value of a type that the bridge does not read.
    Other,
}

/// An attribute of an object.
#[derive(Debug)]
pub struct Attribute {
    /// The `CKA_*` number.
    pub tag: u32,
    pub value: AttributeValue,
}

/// An [`AttributeValue`] as mathematical values.
#[verifier::ext_equal]
pub enum AttributeValueView {
    ObjectKind(u32),
    KeyKind(u32),
    Uint32(u32),
    Boolean(bool),
    ByteString(Seq<u8>),
    Other,
}

/// An [`Attribute`] as mathematical values.
#[verifier::ext_equal]
pub struct AttributeView {
    pub tag: u32,
    pub value: AttributeValueView,
}

impl View for AttributeValue {
    type V = AttributeValueView;

    open spec fn view(&self) -> AttributeValueView {
        match self {
            AttributeValue::ObjectKind(n) => AttributeValueView::ObjectKind(*n),
            AttributeValue::KeyKind(n) => AttributeValueView::KeyKind(*n),
            AttributeValue::Uint32(n) => AttributeValueView::Uint32(*n),
            AttributeValue::Boolean(b) => AttributeValueView::Boolean(*b),
            AttributeValue::ByteString(v) => AttributeValueView::ByteString(v@),
            AttributeValue::Other => AttributeValueView::Other,
        }
    }
}

impl View for Attribute {
    type V = AttributeView;

    open spec fn view(&self) -> AttributeView {
        AttributeView { tag: self.tag, value: self.value@ }
    }
}

/// Attributes as mathematical values.
pub open spec fn attrs_view(attrs: Seq<Attribute>) -> Seq<AttributeView> {
    attrs.map_values(|a: Attribute| a@)
}

/// A call to the token.
#[derive(Debug)]
pub enum HostCall {
    /// Initialise the token library.
    Initialize,
    /// Open a session on a slot.
    OpenSession { session: SessionRole, slot: u32, flags: SessionFlags },
    /// List the slots: all of them, or only those that hold a token.
    ListSlots { token_present: bool },
    /// Initialise a token.
    InitToken { slot: u32, so_pin: String, label: String },
    /// Log in.
    Login { session: SessionRole, user: UserType, pin: Vec<u8> },
    /// Set the user's PIN.
    InitPin { session: SessionRole, pin: Vec<u8> },
    /// Log out.
    Logout { session: SessionRole },
    /// Close a session.
    CloseSession { session: SessionRole },
    /// Generate a key pair.
    GenerateKeyPair {
        mechanism: Mechanism,
        public_template: Vec<Attribute>,
        private_template: Vec<Attribute>,
    },
    /// Start a search for objects.
    FindInit { template: Vec<Attribute> },
    /// Fetch at most so many handles from the search.
    FindNext { max: u32 },
    /// End the search.
    FindFinish,
    /// Take the object behind a handle into use.
    BindObject { half: KeyHalf, handle: u64 },
    /// Read attributes of a key.
    GetAttributes { half: KeyHalf, tags: Vec<u32> },
    /// Sign with the private key.
    Sign { mechanism: Mechanism, message: Vec<u8> },
    /// Verify with the public key.
    Verify { mechanism: Mechanism, message: Vec<u8>, signature: Vec<u8> },
    /// Decrypt with the private key, to at most so many bytes.
    Decrypt { mechanism: Mechanism, ciphertext: Vec<u8>, max_len: u32 },
}

/// A [`HostCall`] as mathematical values.
#[verifier::ext_equal]
pub enum HostCallView {
    Initialize,
    OpenSession { session: SessionRole, slot: u32, flags: SessionFlags },
    ListSlots { token_present: bool },
    InitToken { slot: u32, so_pin: Seq<char>, label: Seq<char> },
    Login { session: SessionRole, user: UserType, pin: Seq<u8> },
    InitPin { session: SessionRole, pin: Seq<u8> },
    Logout { session: SessionRole },
    CloseSession { session: SessionRole },
    GenerateKeyPair {
        mechanism: Mechanism,
        public_template: Seq<AttributeView>,
        private_template: Seq<AttributeView>,
    },
    FindInit { template: Seq<AttributeView> },
    FindNext { max: u32 },
    FindFinish,
    BindObject { half: KeyHalf, handle: u64 },
    GetAttributes { half: KeyHalf, tags: Seq<u32> },
    Sign { mechanism: Mechanism, message: Seq<u8> },
    Verify { mechanism: Mechanism, message: Seq<u8>, signature: Seq<u8> },
    Decrypt { mechanism: Mechanism, ciphertext: Seq<u8>, max_len: u32 },
}

impl View for HostCall {
    type V = HostCallView;

    open spec fn view(&self) -> HostCallView {
        match self {
            HostCall::Initialize => HostCallView::Initialize,
            HostCall::OpenSession { session, slot, flags } => HostCallView::OpenSession {
                session: *session,
                slot: *slot,
                flags: *flags,
            },
            HostCall::ListSlots { token_present } => HostCallView::ListSlots {
                token_present: *token_present,
            },
            HostCall::InitToken { slot, so_pin, label } => HostCallView::InitToken {
                slot: *slot,
                so_pin: so_pin@,
                label: label@,
            },
            HostCall::Login { session, user, pin } => HostCallView::Login {
                session: *session,
                user: *user,
                pin: pin@,
            },
            HostCall::InitPin { session, pin } => HostCallView::InitPin {
                session: *session,
                pin: pin@,
            },
            HostCall::Logout { session } => HostCallView::Logout { session: *session },
            HostCall::CloseSession { session } => HostCallView::CloseSession { session: *session },
            HostCall::GenerateKeyPair { mechanism, public_template, private_template } =>
                HostCallView::GenerateKeyPair {
                mechanism: *mechanism,
                public_template: attrs_view(public_template@),
                private_template: attrs_view(private_template@),
            },
            HostCall::FindInit { template } => HostCallView::FindInit {
                template: attrs_view(template@),
            },
            HostCall::FindNext { max } => HostCallView::FindNext { max: *max },
            HostCall::FindFinish => HostCallView::FindFinish,
            HostCall::BindObject { half, handle } => HostCallView::BindObject {
                half: *half,
                handle: *handle,
            },
            HostCall::GetAttributes { half, tags } => HostCallView::GetAttributes {
                half: *half,
                tags: tags@,
            },
            HostCall::Sign { mechanism, message } => HostCallView::Sign {
                mechanism: *mechanism,
                message: message@,
            },
            HostCall::Verify { mechanism, message, signature } => HostCallView::Verify {
                mechanism: *mechanism,
                message: message@,
                signature: signature@,
            },
            HostCall::Decrypt { mechanism, ciphertext, max_len } => HostCallView::Decrypt {
                mechanism: *mechanism,
                ciphertext: ciphertext@,
                max_len: *max_len,
            },
        }
    }
}

/// The token's reply to a call.
#[derive(Debug)]
pub enum HostReply {
    /// Done, with nothing to give back.
    Done,
    Slots(Vec<u32>),
    Handles(Vec<u64>),
    Attributes(Vec<Attribute>),
    Bytes(Vec<u8>),
    /// The call failed; the text describes the error code.
    Failed(String),
}

/// A [`HostReply`] as mathematical values.
#[verifier::ext_equal]
pub enum HostReplyView {
    Done,
    Slots(Seq<u32>),
    Handles(Seq<u64>),
    Attributes(Seq<AttributeView>),
    Bytes(Seq<u8>),
    Failed(Seq<char>),
}

impl View for HostReply {
    type V = HostReplyView;

    open spec fn view(&self) -> HostReplyView {
        match self {
            HostReply::Done => HostReplyView::Done,
            HostReply::Slots(v) => HostReplyView::Slots(v@),
            HostReply::Handles(v) => HostReplyView::Handles(v@),
            HostReply::Attributes(v) => HostReplyView::Attributes(attrs_view(v@)),
            HostReply::Bytes(v) => HostReplyView::Bytes(v@),
            HostReply::Failed(s) => HostReplyView::Failed(s@),
        }
    }
}

impl HostReplyView {
    /// The slots in this reply, if it lists any.
    pub open spec fn slots(self) -> Seq<u32> {
        match self {
            HostReplyView::Slots(slots) => slots,
            _ => Seq::<u32>::empty(),
        }
    }

    /// The handles in this reply, if it lists any.
    pub open spec fn handles(self) -> Seq<u64> {
        match self {
            HostReplyView::Handles(handles) => handles,
            _ => Seq::<u64>::empty(),
        }
    }

    /// The attributes in this reply, if it lists any.
    pub open spec fn attributes(self) -> Seq<AttributeView> {
        match self {
            HostReplyView::Attributes(attrs) => attrs,
            _ => Seq::<AttributeView>::empty(),
        }
    }

    /// The bytes in this reply, if it has any.
    pub open spec fn bytes(self) -> Seq<u8> {
        match self {
            HostReplyView::Bytes(bytes) => bytes,
            _ => Seq::<u8>::empty(),
        }
    }
}

/// What comes next in an operation whose state is an `S`.
#[derive(Debug)]
pub enum Step<S> {
    /// Make this call, and come back in this state with the reply.
    Call(S, HostCall),
    /// The operation succeeded.
    Done,
    /// The operation failed.
    Fail(BackendError),
}

/// A [`Step`] as mathematical values.
#[verifier::ext_equal]
pub enum StepView<S> {
    Call(S, HostCallView),
    Done,
    Fail(BackendErrorView),
}

impl<S> View for Step<S> {
    type V = StepView<S>;

    open spec fn view(&self) -> StepView<S> {
        match self {
            Step::Call(s, c) => StepView::Call(*s, c@),
            Step::Done => StepView::Done,
            Step::Fail(e) => StepView::Fail(e@),
        }
    }
}

// ---------------------------------------------------------------------------
// Laws
// ---------------------------------------------------------------------------

/// What is said of a call is said of all that it carries: nothing of a PIN, a
/// label, a template, a message, a signature or a ciphertext is left out.
pub proof fn law_calls_show_what_they_carry(call: HostCall)
    ensures
        match call {
            HostCall::Initialize => call@ == HostCallView::Initialize,
            HostCall::OpenSession { session, slot, flags } => call@ matches
                HostCallView::OpenSession { session: s, slot: n, flags: f } && s == session && n
                == slot && f == flags,
            HostCall::ListSlots { token_present } => call@ matches HostCallView::ListSlots {
                token_present: t,
            } && t == token_present,
            HostCall::InitToken { slot, so_pin, label } => call@ matches HostCallView::InitToken {
                slot: n,
                so_pin: p,
                label: l,
            } && n == slot && p == so_pin@ && l == label@,
            HostCall::Login { session, user, pin } => call@ matches HostCallView::Login {
                session: s,
                user: u,
                pin: p,
            } && s == session && u == user && p == pin@,
            HostCall::InitPin { session, pin } => call@ matches HostCallView::InitPin {
                session: s,
                pin: p,
            } && s == session && p == pin@,
            HostCall::Logout { session } => call@ matches HostCallView::Logout { session: s } && s
                == session,
            HostCall::CloseSession { session } => call@ matches HostCallView::CloseSession {
                session: s,
            } && s == session,
            HostCall::GenerateKeyPair { mechanism, public_template, private_template } => call@
                matches HostCallView::GenerateKeyPair {
                mechanism: m,
                public_template: a,
                private_template: b,
            } && m == mechanism && a == attrs_view(public_template@) && b == attrs_view(
                private_template@,
            ),
            HostCall::FindInit { template } => call@ matches HostCallView::FindInit { template: t }
                && t == attrs_view(template@),
            HostCall::FindNext { max } => call@ matches HostCallView::FindNext { max: m } && m
                == max,
            HostCall::FindFinish => call@ == HostCallView::FindFinish,
            HostCall::BindObject { half, handle } => call@ matches HostCallView::BindObject {
                half: h,
                handle: n,
            } && h == half && n == handle,
            HostCall::GetAttributes { half, tags } => call@ matches HostCallView::GetAttributes {
                half: h,
                tags: t,
            } && h == half && t == tags@,
            HostCall::Sign { mechanism, message } => call@ matches HostCallView::Sign {
                mechanism: m,
                message: b,
            } && m == mechanism && b == message@,
            HostCall::Verify { mechanism, message, signature } => call@ matches
                HostCallView::Verify { mechanism: m, message: b, signature: s } && m == mechanism
                && b == message@ && s == signature@,
            HostCall::Decrypt { mechanism, ciphertext, max_len } => call@ matches
                HostCallView::Decrypt { mechanism: m, ciphertext: c, max_len: n } && m == mechanism
                && c == ciphertext@ && n == max_len,
        },
{
}

/// What is said of a reply is said of all that it carries.
pub proof fn law_replies_show_what_they_carry(reply: HostReply)
    ensures
        match reply {
            HostReply::Done => reply@ == HostReplyView::Done,
            HostReply::Slots(v) => reply@ == HostReplyView::Slots(v@),
            HostReply::Handles(v) => reply@ == HostReplyView::Handles(v@),
            HostReply::Attributes(v) => reply@ == HostReplyView::Attributes(attrs_view(v@)),
            HostReply::Bytes(v) => reply@ == HostReplyView::Bytes(v@),
            HostReply::Failed(s) => reply@ == HostReplyView::Failed(s@),
        },
{
}

/// Attributes are spoken of one for one, each with its tag and its whole value.
pub proof fn law_attributes_show_their_value(attrs: Seq<Attribute>, i: int)
    requires
        0 <= i < attrs.len(),
    ensures
        attrs_view(attrs).len() == attrs.len(),
        attrs_view(attrs)[i].tag == attrs[i].tag,
        match attrs[i].value {
            AttributeValue::ObjectKind(n) => attrs_view(attrs)[i].value
                == AttributeValueView::ObjectKind(n),
            AttributeValue::KeyKind(n) => attrs_view(attrs)[i].value
                == AttributeValueView::KeyKind(n),
            AttributeValue::Uint32(n) => attrs_view(attrs)[i].value
                == AttributeValueView::Uint32(n),
            AttributeValue::Boolean(b) => attrs_view(attrs)[i].value
                == AttributeValueView::Boolean(b),
            AttributeValue::ByteString(b) => attrs_view(attrs)[i].value
                == AttributeValueView::ByteString(b@),
            AttributeValue::Other => attrs_view(attrs)[i].value == AttributeValueView::Other,
        },
{
}

/// What a reply lists is read in full, and a reply of another form lists
/// nothing.
pub proof fn law_replies_are_read_in_full(
    reply: HostReplyView,
    slots: Seq<u32>,
    handles: Seq<u64>,
    attrs: Seq<AttributeView>,
    bytes: Seq<u8>,
)
    ensures
        HostReplyView::Slots(slots).slots() == slots,
        HostReplyView::Handles(handles).handles() == handles,
        HostReplyView::Attributes(attrs).attributes() == attrs,
        HostReplyView::Bytes(bytes).bytes() == bytes,
        !(reply is Slots) ==> reply.slots().len() == 0,
        !(reply is Handles) ==> reply.handles().len() == 0,
        !(reply is Attributes) ==> reply.attributes().len() == 0,
        !(reply is Bytes) ==> reply.bytes().len() == 0,
        serial_read_write().serial && serial_read_write().read_write,
{
}

/// A step shows what it is: the call and the state to come back in, the end, or
/// the error.
pub proof fn law_steps_show_what_they_carry<S>(state: S, call: HostCall, e: BackendError)
    ensures
        Step::Call(state, call)@ == StepView::Call(state, call@),
        Step::<S>::Done@ == StepView::<S>::Done,
        Step::<S>::Fail(e)@ == StepView::<S>::Fail(e@),
{
}

} // verus!
