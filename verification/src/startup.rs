//! From a URI to a key that is ready for use: parse, open a session, find the
//! private half, and generate the pair where the URI asks for it.
use crate::error::{backend_error, ck_error_to_backend, BackendError, BackendErrorView};
use crate::host::{HostCall, HostCallView, HostReply, HostReplyView, KeyHalf, Step, StepView};
use crate::key::{Key, KeyView};
use crate::keygen::{generate_keypair_for, keygen_call};
use crate::object::{find_object, find_object_step, find_start, find_step, FindState};
use crate::session::{
    is_provisioning, open_session_for, open_session_step, open_start, open_step, OpenState,
};
use crate::text::join;
use crate::uri::{parse_uri, Pkcs11Uri, Pkcs11UriView};
use vstd::prelude::*;

verus! {

/// Which reply is awaited while a key is being got ready.
#[derive(Clone, Copy, Debug, PartialEq, Eq, Structural)]
pub enum NewState {
    /// One of the opening of the session.
    Opening(OpenState),
    /// One of the search for the private half.
    Finding(FindState),
    /// To the generation of the pair.
    Generating,
    /// One of the search for the private half of the new pair.
    FindingNew(FindState),
}

/// Where it failed, and why.
#[derive(Debug)]
pub enum NewFailure {
    OpenSession(BackendError),
    PrivateKeyLookup(BackendError),
    Keygen(BackendError),
    PostKeygenLookup(BackendError),
}

/// A [`NewFailure`] as mathematical values.
#[verifier::ext_equal]
pub enum NewFailureView {
    OpenSession(BackendErrorView),
    PrivateKeyLookup(BackendErrorView),
    Keygen(BackendErrorView),
    PostKeygenLookup(BackendErrorView),
}

impl View for NewFailure {
    type V = NewFailureView;

    open spec fn view(&self) -> NewFailureView {
        match self {
            NewFailure::OpenSession(e) => NewFailureView::OpenSession(e@),
            NewFailure::PrivateKeyLookup(e) => NewFailureView::PrivateKeyLookup(e@),
            NewFailure::Keygen(e) => NewFailureView::Keygen(e@),
            NewFailure::PostKeygenLookup(e) => NewFailureView::PostKeygenLookup(e@),
        }
    }
}

impl NewFailureView {
    /// What to say in front of the error.
    pub open spec fn headline(self) -> Seq<char> {
        match self {
            NewFailureView::OpenSession(_) => "pkcs11-bridge: open-session failed: "@,
            NewFailureView::PrivateKeyLookup(_) => "pkcs11-bridge: private-key lookup failed: "@,
            NewFailureView::Keygen(_) => "pkcs11-bridge: keygen failed: "@,
            NewFailureView::PostKeygenLookup(_) => "pkcs11-bridge: post-keygen lookup failed: "@,
        }
    }
}

impl NewFailure {
    /// What to say in front of the error.
    pub fn headline(&self) -> (r: &'static str)
        ensures
            r@ == self@.headline(),
    {
        match self {
            NewFailure::OpenSession(_) => "pkcs11-bridge: open-session failed: ",
            NewFailure::PrivateKeyLookup(_) => "pkcs11-bridge: private-key lookup failed: ",
            NewFailure::Keygen(_) => "pkcs11-bridge: keygen failed: ",
            NewFailure::PostKeygenLookup(_) => "pkcs11-bridge: post-keygen lookup failed: ",
        }
    }
}

/// What comes next while a key is being got ready.
#[derive(Debug)]
pub enum NewStep {
    Call(NewState, HostCall),
    /// The session is open and the private half is in use.
    Ready,
    Fail(NewFailure),
}

/// A [`NewStep`] as mathematical values.
#[verifier::ext_equal]
pub enum NewStepView {
    Call(NewState, HostCallView),
    Ready,
    Fail(NewFailureView),
}

impl View for NewStep {
    type V = NewStepView;

    open spec fn view(&self) -> NewStepView {
        match self {
            NewStep::Call(s, c) => NewStepView::Call(*s, c@),
            NewStep::Ready => NewStepView::Ready,
            NewStep::Fail(e) => NewStepView::Fail(e@),
        }
    }
}

/// A key of which only the URI is known.
pub open spec fn fresh_key(uri: Pkcs11UriView) -> KeyView {
    KeyView { uri, algorithm: None, spki_cache: None }
}

/// A step of the first search, as one of the whole. Where nothing is found
/// and the URI asks for it, the pair is generated.
pub open spec fn new_find(uri: Pkcs11UriView, step: StepView<FindState>) -> NewStepView {
    match step {
        StepView::Call(s, c) => NewStepView::Call(NewState::Finding(s), c),
        StepView::Done => NewStepView::Ready,
        StepView::Fail(e) => if uri.init {
            match keygen_call(uri) {
                Ok(call) => NewStepView::Call(NewState::Generating, call),
                Err(e) => NewStepView::Fail(NewFailureView::Keygen(e)),
            }
        } else {
            NewStepView::Fail(NewFailureView::PrivateKeyLookup(e))
        },
    }
}

/// A step of the search for the new pair, as one of the whole.
pub open spec fn new_find_again(step: StepView<FindState>) -> NewStepView {
    match step {
        StepView::Call(s, c) => NewStepView::Call(NewState::FindingNew(s), c),
        StepView::Done => NewStepView::Ready,
        StepView::Fail(e) => NewStepView::Fail(NewFailureView::PostKeygenLookup(e)),
    }
}

/// A step of the opening of the session, as one of the whole.
pub open spec fn new_open(uri: Pkcs11UriView, step: StepView<OpenState>) -> NewStepView {
    match step {
        StepView::Call(s, c) => NewStepView::Call(NewState::Opening(s), c),
        StepView::Done => new_find(uri, find_start(uri, KeyHalf::Private)),
        StepView::Fail(e) => NewStepView::Fail(NewFailureView::OpenSession(e)),
    }
}

/// How it starts.
pub open spec fn new_start(uri: Pkcs11UriView) -> NewStepView {
    new_open(uri, open_start())
}

/// What comes after a reply.
pub open spec fn new_step(uri: Pkcs11UriView, state: NewState, reply: HostReplyView) -> NewStepView {
    match state {
        NewState::Opening(s) => new_open(uri, open_step(uri, s, reply)),
        NewState::Finding(s) => new_find(uri, find_step(uri, KeyHalf::Private, s, reply)),
        NewState::Generating => match reply {
            HostReplyView::Failed(code) => NewStepView::Fail(
                NewFailureView::Keygen(backend_error(code)),
            ),
            _ => new_find_again(find_start(uri, KeyHalf::Private)),
        },
        NewState::FindingNew(s) => new_find_again(find_step(uri, KeyHalf::Private, s, reply)),
    }
}

impl Key {
    /// The key that `uri` names, or what to say of a URI that names none. It
    /// is not ready for use before [`Key::start`] and what follows from it.
    pub fn new(uri: &str) -> (r: Result<Key, String>)
        ensures
            match (r, parse_uri(uri@)) {
                (Ok(key), Ok(u)) => key@ == fresh_key(u),
                (Err(text), Err(e)) => text@ == "pkcs11-bridge: bad URI: "@ + e,
                _ => false,
            },
    {
        match Pkcs11Uri::parse(uri) {
            Ok(uri) => Ok(Key { uri, algorithm: None, spki_cache: None }),
            Err(e) => Err(join("pkcs11-bridge: bad URI: ", e.as_str())),
        }
    }

    /// A step of the first search, as one of the whole.
    fn find_next(&self, step: Step<FindState>) -> (r: NewStep)
        ensures
            r@ == new_find(self@.uri, step@),
    {
        match step {
            Step::Call(s, c) => NewStep::Call(NewState::Finding(s), c),
            Step::Done => NewStep::Ready,
            Step::Fail(e) => if self.uri.init {
                match generate_keypair_for(&self.uri) {
                    Ok(call) => NewStep::Call(NewState::Generating, call),
                    Err(e) => NewStep::Fail(NewFailure::Keygen(e)),
                }
            } else {
                NewStep::Fail(NewFailure::PrivateKeyLookup(e))
            },
        }
    }

    /// A step of the search for the new pair, as one of the whole.
    fn find_again_next(step: Step<FindState>) -> (r: NewStep)
        ensures
            r@ == new_find_again(step@),
    {
        match step {
            Step::Call(s, c) => NewStep::Call(NewState::FindingNew(s), c),
            Step::Done => NewStep::Ready,
            Step::Fail(e) => NewStep::Fail(NewFailure::PostKeygenLookup(e)),
        }
    }

    /// A step of the opening of the session, as one of the whole.
    fn open_next(&self, step: Step<OpenState>) -> (r: NewStep)
        ensures
            r@ == new_open(self@.uri, step@),
    {
        match step {
            Step::Call(s, c) => NewStep::Call(NewState::Opening(s), c),
            Step::Done => self.find_next(find_object(&self.uri, KeyHalf::Private)),
            Step::Fail(e) => NewStep::Fail(NewFailure::OpenSession(e)),
        }
    }

    /// Starts to get the key ready.
    pub fn start(&self) -> (r: NewStep)
        ensures
            r@ == new_start(self@.uri),
    {
        self.open_next(open_session_for())
    }

    /// Decides what comes after a reply while the key is being got ready.
    pub fn start_step(&self, state: NewState, reply: HostReply) -> (r: NewStep)
        ensures
            r@ == new_step(self@.uri, state, reply@),
    {
        match state {
            NewState::Opening(s) => self.open_next(open_session_step(&self.uri, s, reply)),
            NewState::Finding(s) => self.find_next(
                find_object_step(&self.uri, KeyHalf::Private, s, reply),
            ),
            NewState::Generating => match reply {
                HostReply::Failed(code) => NewStep::Fail(
                    NewFailure::Keygen(ck_error_to_backend(code)),
                ),
                _ => Self::find_again_next(find_object(&self.uri, KeyHalf::Private)),
            },
            NewState::FindingNew(s) => Self::find_again_next(
                find_object_step(&self.uri, KeyHalf::Private, s, reply),
            ),
        }
    }
}

// ---------------------------------------------------------------------------
// Laws
// ---------------------------------------------------------------------------

impl NewState {
    /// How many more replies can come at most, this one among them.
    pub open spec fn remaining(self) -> nat {
        match self {
            NewState::Opening(s) => s.remaining() + 9,
            NewState::Finding(s) => s.remaining() + 5,
            NewState::Generating => 5,
            NewState::FindingNew(s) => s.remaining(),
        }
    }
}

/// The calls made, and how it ended if it did.
#[verifier::ext_equal]
pub struct NewRun {
    pub calls: Seq<HostCallView>,
    pub end: Option<Result<(), NewFailureView>>,
}

/// Getting a key ready from `step` on, as `replies` come in.
pub open spec fn new_run(
    uri: Pkcs11UriView,
    step: NewStepView,
    replies: Seq<HostReplyView>,
) -> NewRun
    decreases replies.len(),
{
    match step {
        NewStepView::Call(state, call) => if replies.len() == 0 {
            NewRun { calls: seq![call], end: None }
        } else {
            let rest = new_run(uri, new_step(uri, state, replies[0]), replies.drop_first());
            NewRun { calls: seq![call] + rest.calls, end: rest.end }
        },
        NewStepView::Ready => NewRun { calls: Seq::<HostCallView>::empty(), end: Some(Ok(())) },
        NewStepView::Fail(e) => NewRun { calls: Seq::<HostCallView>::empty(), end: Some(Err(e)) },
    }
}

/// Getting a key ready comes to an end: it never takes more than twenty-one
/// calls.
pub proof fn law_new_ends(uri: Pkcs11UriView, replies: Seq<HostReplyView>)
    ensures
        new_run(uri, new_start(uri), replies).calls.len() <= 21,
        replies.len() >= 21 ==> new_run(uri, new_start(uri), replies).end is Some,
{
    lemma_new_ends(uri, new_start(uri), replies);
}

proof fn lemma_new_ends(uri: Pkcs11UriView, step: NewStepView, replies: Seq<HostReplyView>)
    ensures
        step matches NewStepView::Call(state, _) ==> {
            &&& new_run(uri, step, replies).calls.len() <= state.remaining()
            &&& replies.len() >= state.remaining() ==> new_run(uri, step, replies).end is Some
        },
    decreases replies.len(),
{
    match step {
        NewStepView::Call(state, _) => if replies.len() > 0 {
            let next = new_step(uri, state, replies[0]);
            assert(next matches NewStepView::Call(s, _) ==> s.remaining() < state.remaining());
            lemma_new_ends(uri, next, replies.drop_first());
        },
        _ => {},
    }
}

/// Without `init` nothing on the token is changed while a key is got ready:
/// no token is set up, no PIN is set and no key is generated, whatever the
/// token replies.
pub proof fn law_nothing_changed_unasked(uri: Pkcs11UriView, replies: Seq<HostReplyView>)
    requires
        !uri.init,
    ensures
        forall|i: int|
            0 <= i < new_run(uri, new_start(uri), replies).calls.len() ==> !is_provisioning(
                #[trigger] new_run(uri, new_start(uri), replies).calls[i],
            ),
{
    lemma_nothing_changed(uri, new_start(uri), replies);
}

/// The states that are reached without changing the token.
spec fn is_plain(state: NewState) -> bool {
    match state {
        NewState::Opening(s) => s == OpenState::Initializing || s == OpenState::Opening || s
            == OpenState::LoggingIn,
        NewState::Finding(_) => true,
        _ => false,
    }
}

proof fn lemma_nothing_changed(uri: Pkcs11UriView, step: NewStepView, replies: Seq<HostReplyView>)
    requires
        !uri.init,
        step matches NewStepView::Call(state, call) ==> is_plain(state) && !is_provisioning(call),
    ensures
        forall|i: int|
            0 <= i < new_run(uri, step, replies).calls.len() ==> !is_provisioning(
                #[trigger] new_run(uri, step, replies).calls[i],
            ),
    decreases replies.len(),
{
    match step {
        NewStepView::Call(state, call) => if replies.len() > 0 {
            let next = new_step(uri, state, replies[0]);
            lemma_nothing_changed(uri, next, replies.drop_first());
            let rest = new_run(uri, next, replies.drop_first());
            assert forall|i: int| 0 <= i < new_run(uri, step, replies).calls.len() implies
                !is_provisioning(#[trigger] new_run(uri, step, replies).calls[i]) by {
                if i > 0 {
                    assert(new_run(uri, step, replies).calls[i] == rest.calls[i - 1]);
                }
            }
        },
        _ => {},
    }
}

/// Where `init` asks for it and no private half is found, whatever the
/// reason, the pair is generated, and then looked for as before.
pub proof fn law_generates_what_is_missing(
    uri: Pkcs11UriView,
    state: FindState,
    reply: HostReplyView,
)
    requires
        uri.init,
        keygen_call(uri) is Ok,
        find_step(uri, KeyHalf::Private, state, reply) is Fail,
    ensures
        new_step(uri, NewState::Finding(state), reply) == NewStepView::Call(
            NewState::Generating,
            keygen_call(uri)->Ok_0,
        ),
        new_step(uri, NewState::Generating, HostReplyView::Done) == NewStepView::Call(
            NewState::FindingNew(FindState::Searching),
            HostCallView::FindInit {
                template: crate::object::find_template(uri, crate::ck::CKO_PRIVATE_KEY),
            },
        ),
{
}

/// A key is ready only after the token bound the private half: the last call
/// made was that one.
pub proof fn law_ready_means_bound(uri: Pkcs11UriView, replies: Seq<HostReplyView>)
    requires
        new_run(uri, new_start(uri), replies).end == Some(Ok::<(), NewFailureView>(())),
    ensures
        new_run(uri, new_start(uri), replies).calls.last() matches HostCallView::BindObject {
            half: KeyHalf::Private,
            ..
        },
{
    lemma_ready_means_bound(uri, new_start(uri), replies);
}

/// A state and the call whose reply it awaits belong together.
spec fn binds(state: NewState, call: HostCallView) -> bool {
    (state == NewState::Finding(FindState::Binding) || state == NewState::FindingNew(
        FindState::Binding,
    )) ==> call matches HostCallView::BindObject { half: KeyHalf::Private, .. }
}

proof fn lemma_ready_means_bound(uri: Pkcs11UriView, step: NewStepView, replies: Seq<HostReplyView>)
    requires
        step matches NewStepView::Call(state, call) && binds(state, call),
        new_run(uri, step, replies).end == Some(Ok::<(), NewFailureView>(())),
    ensures
        new_run(uri, step, replies).calls.len() > 0,
        new_run(uri, step, replies).calls.last() matches HostCallView::BindObject {
            half: KeyHalf::Private,
            ..
        },
    decreases replies.len(),
{
    match step {
        NewStepView::Call(state, call) => if replies.len() > 0 {
            let next = new_step(uri, state, replies[0]);
            let rest = new_run(uri, next, replies.drop_first());
            if next is Call {
                lemma_ready_means_bound(uri, next, replies.drop_first());
                assert(new_run(uri, step, replies).calls.last() == rest.calls.last());
            } else {
                assert(new_run(uri, step, replies).calls =~= seq![call]);
            }
        },
        _ => {},
    }
}

/// Getting a key ready starts by opening a session, and goes through every step
/// of that as it comes. Once the session is open the private half is looked for;
/// a session that cannot be opened is the end.
pub proof fn law_session_comes_first(uri: Pkcs11UriView, state: OpenState, reply: HostReplyView)
    ensures
        new_start(uri) == NewStepView::Call(
            NewState::Opening(OpenState::Initializing),
            HostCallView::Initialize,
        ),
        match open_step(uri, state, reply) {
            StepView::Call(next, call) => new_step(uri, NewState::Opening(state), reply)
                == NewStepView::Call(NewState::Opening(next), call),
            StepView::Fail(e) => new_step(uri, NewState::Opening(state), reply)
                == NewStepView::Fail(NewFailureView::OpenSession(e)),
            StepView::Done => find_start(uri, KeyHalf::Private) matches StepView::Call(next, call)
                && new_step(uri, NewState::Opening(state), reply) == NewStepView::Call(
                NewState::Finding(next),
                call,
            ),
        },
{
}

/// The search for the private half goes as any search does. A half that is
/// found makes the key ready. One that is not found is the end, unless `init`
/// asks for a new pair; a pair that cannot be asked for is the end too.
pub proof fn law_private_half_decides(uri: Pkcs11UriView, state: FindState, reply: HostReplyView)
    ensures
        match find_step(uri, KeyHalf::Private, state, reply) {
            StepView::Call(next, call) => new_step(uri, NewState::Finding(state), reply)
                == NewStepView::Call(NewState::Finding(next), call),
            StepView::Done => new_step(uri, NewState::Finding(state), reply) == NewStepView::Ready,
            StepView::Fail(e) => if !uri.init {
                new_step(uri, NewState::Finding(state), reply) == NewStepView::Fail(
                    NewFailureView::PrivateKeyLookup(e),
                )
            } else {
                match keygen_call(uri) {
                    Ok(call) => new_step(uri, NewState::Finding(state), reply)
                        == NewStepView::Call(NewState::Generating, call),
                    Err(k) => new_step(uri, NewState::Finding(state), reply) == NewStepView::Fail(
                        NewFailureView::Keygen(k),
                    ),
                }
            },
        },
{
}

/// After a pair was generated its private half is looked for once more; found it
/// makes the key ready, and not found is the end, whatever `init` says. A pair
/// that cannot be generated is the end.
pub proof fn law_new_pair_is_looked_for(
    uri: Pkcs11UriView,
    state: FindState,
    reply: HostReplyView,
    code: Seq<char>,
)
    ensures
        new_step(uri, NewState::Generating, HostReplyView::Failed(code)) == NewStepView::Fail(
            NewFailureView::Keygen(backend_error(code)),
        ),
        !(reply is Failed) ==> (find_start(uri, KeyHalf::Private) matches StepView::Call(next, call)
            && new_step(uri, NewState::Generating, reply) == NewStepView::Call(
            NewState::FindingNew(next),
            call,
        )),
        match find_step(uri, KeyHalf::Private, state, reply) {
            StepView::Call(next, call) => new_step(uri, NewState::FindingNew(state), reply)
                == NewStepView::Call(NewState::FindingNew(next), call),
            StepView::Done => new_step(uri, NewState::FindingNew(state), reply)
                == NewStepView::Ready,
            StepView::Fail(e) => new_step(uri, NewState::FindingNew(state), reply)
                == NewStepView::Fail(NewFailureView::PostKeygenLookup(e)),
        },
{
}

/// What is said in front of each failure, and that a new key knows nothing but
/// its URI.
pub proof fn law_failures_have_headlines(e: BackendErrorView, uri: Pkcs11UriView)
    ensures
        NewFailureView::OpenSession(e).headline() == "pkcs11-bridge: open-session failed: "@,
        NewFailureView::PrivateKeyLookup(e).headline()
            == "pkcs11-bridge: private-key lookup failed: "@,
        NewFailureView::Keygen(e).headline() == "pkcs11-bridge: keygen failed: "@,
        NewFailureView::PostKeygenLookup(e).headline()
            == "pkcs11-bridge: post-keygen lookup failed: "@,
        fresh_key(uri).uri == uri,
        fresh_key(uri).algorithm is None,
        fresh_key(uri).spki_cache is None,
{
}

/// A step and a failure show what they carry.
pub proof fn law_new_steps_show_what_they_carry(state: NewState, call: HostCall, e: BackendError)
    ensures
        NewStep::Call(state, call)@ == NewStepView::Call(state, call@),
        NewStep::Ready@ == NewStepView::Ready,
        NewStep::Fail(NewFailure::OpenSession(e))@ == NewStepView::Fail(
            NewFailureView::OpenSession(e@),
        ),
        NewStep::Fail(NewFailure::PrivateKeyLookup(e))@ == NewStepView::Fail(
            NewFailureView::PrivateKeyLookup(e@),
        ),
        NewStep::Fail(NewFailure::Keygen(e))@ == NewStepView::Fail(NewFailureView::Keygen(e@)),
        NewStep::Fail(NewFailure::PostKeygenLookup(e))@ == NewStepView::Fail(
            NewFailureView::PostKeygenLookup(e@),
        ),
{
}

} // verus!
