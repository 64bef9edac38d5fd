//! Finding a key on the token.
use crate::ck;
use crate::error::{backend_error, ck_error_to_backend, BackendError, BackendErrorView, ErrorKind};
use crate::host::{
    attrs_view, Attribute, AttributeValue, AttributeValueView, AttributeView, HostCall,
    HostCallView, HostReply, HostReplyView, KeyHalf, Step, StepView,
};
use crate::number::{hex_text_2, to_hex_2};
use crate::uri::{opt_bytes, opt_text, Pkcs11Uri, Pkcs11UriView};
use vstd::prelude::*;
use vstd::string::*;
use vstd::utf8::encode_utf8;

verus! {

/// The object class of a half of a key pair.
pub open spec fn class_of(half: KeyHalf) -> u32 {
    match half {
        KeyHalf::Private => ck::CKO_PRIVATE_KEY,
        KeyHalf::Public => ck::CKO_PUBLIC_KEY,
    }
}

/// An attribute whose value is bytes.
pub open spec fn bytes_attr(tag: u32, bytes: Seq<u8>) -> AttributeView {
    AttributeView { tag, value: AttributeValueView::ByteString(bytes) }
}

/// An attribute that is set.
pub open spec fn true_attr(tag: u32) -> AttributeView {
    AttributeView { tag, value: AttributeValueView::Boolean(true) }
}

/// What an object has to match: the class, and the label and the identifier
/// as far as the URI has them.
pub open spec fn find_template(uri: Pkcs11UriView, class: u32) -> Seq<AttributeView> {
    let base = seq![
        AttributeView { tag: ck::CKA_CLASS, value: AttributeValueView::ObjectKind(class) },
    ];
    let labelled = match uri.object {
        Some(label) => base.push(bytes_attr(ck::CKA_LABEL, encode_utf8(label))),
        None => base,
    };
    match uri.id {
        Some(id) => labelled.push(bytes_attr(ck::CKA_ID, id)),
        None => labelled,
    }
}

/// The text that the standard library's `Debug` makes of an optional label.
pub uninterp spec fn label_debug(label: Option<Seq<char>>) -> Seq<char>;

/// The text that the standard library's `Debug` makes of an optional identifier.
pub uninterp spec fn id_debug(id: Option<Seq<u8>>) -> Seq<char>;

/// The message when nothing matches.
pub open spec fn no_match_text(uri: Pkcs11UriView, class: u32) -> Seq<char> {
    "no object matched URI (class=0x"@ + hex_text_2(class as nat) + ", label="@ + label_debug(
        uri.object,
    ) + ", id="@ + id_debug(uri.id) + ")"@
}

/// Which reply is awaited while an object is being looked for.
#[derive(Clone, Copy, Debug, PartialEq, Eq, Structural)]
pub enum FindState {
    /// To the start of the search.
    Searching,
    /// To the first handle.
    Fetching,
    /// To the end of the search, which gave this handle.
    Finishing(Option<u64>),
    /// To the object behind the handle.
    Binding,
}

impl FindState {
    /// How many more replies can come at most, this one among them.
    pub open spec fn remaining(self) -> nat {
        match self {
            FindState::Searching => 4,
            FindState::Fetching => 3,
            FindState::Finishing(_) => 2,
            FindState::Binding => 1,
        }
    }
}

/// How the search for a half of the key pair starts.
pub open spec fn find_start(uri: Pkcs11UriView, half: KeyHalf) -> StepView<FindState> {
    StepView::Call(
        FindState::Searching,
        HostCallView::FindInit { template: find_template(uri, class_of(half)) },
    )
}

/// The first of the handles.
pub open spec fn first_handle(handles: Seq<u64>) -> Option<u64> {
    if handles.len() == 0 {
        None
    } else {
        Some(handles[0])
    }
}

/// What comes after a reply. The first object that matches is taken. It does
/// not matter whether the search ends well; any other failure ends it.
pub open spec fn find_step(
    uri: Pkcs11UriView,
    half: KeyHalf,
    state: FindState,
    reply: HostReplyView,
) -> StepView<FindState> {
    match (state, reply) {
        (FindState::Finishing(None), _) => StepView::Fail(
            BackendErrorView {
                kind: ErrorKind::KeyNotFound,
                text: no_match_text(uri, class_of(half)),
            },
        ),
        (FindState::Finishing(Some(handle)), _) => StepView::Call(
            FindState::Binding,
            HostCallView::BindObject { half, handle },
        ),
        (_, HostReplyView::Failed(code)) => StepView::Fail(backend_error(code)),
        (FindState::Searching, _) => StepView::Call(
            FindState::Fetching,
            HostCallView::FindNext { max: 1 },
        ),
        (FindState::Fetching, _) => StepView::Call(
            FindState::Finishing(first_handle(reply.handles())),
            HostCallView::FindFinish,
        ),
        (FindState::Binding, _) => StepView::Done,
    }
}

/// Formats an optional label with the standard library's `Debug`. The text
/// depends on the label alone; its form is left to the standard library,
/// whose documentation does not promise it.
#[verifier::external_body]
fn debug_label(label: &Option<String>) -> (r: String)
    ensures
        r@ == label_debug(opt_text(*label)),
{
    format!("{:?}", label)
}

/// Formats an optional identifier with the standard library's `Debug`. The
/// text depends on the identifier alone; its form is left to the standard
/// library, whose documentation does not promise it.
#[verifier::external_body]
fn debug_id(id: &Option<Vec<u8>>) -> (r: String)
    ensures
        r@ == id_debug(opt_bytes(*id)),
{
    format!("{:?}", id)
}

/// The object class of a half of a key pair.
fn object_class(half: KeyHalf) -> (class: u32)
    ensures
        class == class_of(half),
{
    match half {
        KeyHalf::Private => ck::CKO_PRIVATE_KEY,
        KeyHalf::Public => ck::CKO_PUBLIC_KEY,
    }
}

/// An attribute whose value is bytes.
pub(crate) fn bytes_attribute(tag: u32, bytes: Vec<u8>) -> (a: Attribute)
    ensures
        a@ == bytes_attr(tag, bytes@),
{
    Attribute { tag, value: AttributeValue::ByteString(bytes) }
}

/// An attribute that is set.
pub(crate) fn true_attribute(tag: u32) -> (a: Attribute)
    ensures
        a@ == true_attr(tag),
{
    Attribute { tag, value: AttributeValue::Boolean(true) }
}

/// Adds an attribute to a template.
pub(crate) fn push_attr(template: &mut Vec<Attribute>, a: Attribute)
    ensures
        attrs_view(final(template)@) == attrs_view(old(template)@).push(a@),
{
    let ghost before = template@;
    template.push(a);
    assert(attrs_view(template@) =~= attrs_view(before).push(a@));
}

/// The message when nothing matches.
fn no_match_message(uri: &Pkcs11Uri, class: u32) -> (r: String)
    ensures
        r@ == no_match_text(uri@, class),
{
    let mut r: String = "no object matched URI (class=0x".to_owned();
    r.append(to_hex_2(class).as_str());
    r.append(", label=");
    r.append(debug_label(&uri.object).as_str());
    r.append(", id=");
    r.append(debug_id(&uri.id).as_str());
    r.append(")");
    r
}

/// Starts to look for a half of the key pair that `uri` names.
pub fn find_object(uri: &Pkcs11Uri, half: KeyHalf) -> (r: Step<FindState>)
    ensures
        r@ == find_start(uri@, half),
{
    let mut template: Vec<Attribute> = Vec::new();
    assert(attrs_view(template@) =~= Seq::<AttributeView>::empty());
    push_attr(
        &mut template,
        Attribute {
            tag: ck::CKA_CLASS,
            value: AttributeValue::ObjectKind(object_class(half)),
        },
    );
    if let Some(label) = &uri.object {
        push_attr(&mut template, bytes_attribute(ck::CKA_LABEL, label.as_str().as_bytes_vec()));
    }
    if let Some(id) = &uri.id {
        push_attr(
            &mut template,
            bytes_attribute(ck::CKA_ID, vstd::slice::slice_to_vec(id.as_slice())),
        );
    }
    assert(attrs_view(template@) =~= find_template(uri@, class_of(half)));
    Step::Call(FindState::Searching, HostCall::FindInit { template })
}

/// Decides what comes after a reply while an object is being looked for.
pub fn find_object_step(
    uri: &Pkcs11Uri,
    half: KeyHalf,
    state: FindState,
    reply: HostReply,
) -> (r: Step<FindState>)
    ensures
        r@ == find_step(uri@, half, state, reply@),
{
    match state {
        FindState::Finishing(None) => Step::Fail(
            BackendError::KeyNotFound(no_match_message(uri, object_class(half))),
        ),
        FindState::Finishing(Some(handle)) => Step::Call(
            FindState::Binding,
            HostCall::BindObject { half, handle },
        ),
        FindState::Searching => match reply {
            HostReply::Failed(code) => Step::Fail(ck_error_to_backend(code)),
            _ => Step::Call(FindState::Fetching, HostCall::FindNext { max: 1 }),
        },
        FindState::Fetching => match reply {
            HostReply::Failed(code) => Step::Fail(ck_error_to_backend(code)),
            HostReply::Handles(handles) => {
                let first: Option<u64> = if handles.len() == 0 {
                    None
                } else {
                    Some(handles[0])
                };
                Step::Call(FindState::Finishing(first), HostCall::FindFinish)
            },
            _ => Step::Call(FindState::Finishing(None), HostCall::FindFinish),
        },
        FindState::Binding => match reply {
            HostReply::Failed(code) => Step::Fail(ck_error_to_backend(code)),
            _ => Step::Done,
        },
    }
}

// ---------------------------------------------------------------------------
// Laws
// ---------------------------------------------------------------------------

/// Each reply brings the end of the search nearer.
pub proof fn law_find_progresses(
    uri: Pkcs11UriView,
    half: KeyHalf,
    state: FindState,
    reply: HostReplyView,
)
    ensures
        find_step(uri, half, state, reply) matches StepView::Call(next, _) ==> next.remaining()
            < state.remaining(),
{
}

/// Where objects match, the first of them is taken into use: of the handles
/// that the token gives, however many they are, the first one is bound,
/// however the search ends.
pub proof fn law_first_match_is_bound(
    uri: Pkcs11UriView,
    half: KeyHalf,
    handles: Seq<u64>,
    finish: HostReplyView,
)
    requires
        handles.len() > 0,
    ensures
        find_step(uri, half, FindState::Fetching, HostReplyView::Handles(handles))
            == StepView::Call(FindState::Finishing(Some(handles[0])), HostCallView::FindFinish),
        find_step(uri, half, FindState::Finishing(Some(handles[0])), finish) == StepView::Call(
            FindState::Binding,
            HostCallView::BindObject { half, handle: handles[0] },
        ),
        find_step(uri, half, FindState::Binding, HostReplyView::Done) == StepView::<
            FindState,
        >::Done,
{
}

/// A search asks for the half that it is for and for all that the URI names:
/// the class, the label in UTF-8 if there is one, and the identifier if there
/// is one.
pub proof fn law_search_asks_for_all_of_it(uri: Pkcs11UriView, half: KeyHalf)
    ensures
        find_start(uri, half) matches StepView::Call(
            FindState::Searching,
            HostCallView::FindInit { template },
        ) && {
            &&& half == KeyHalf::Private ==> template.contains(
                AttributeView { tag: 0x00, value: AttributeValueView::ObjectKind(0x03) },
            )
            &&& half == KeyHalf::Public ==> template.contains(
                AttributeView { tag: 0x00, value: AttributeValueView::ObjectKind(0x02) },
            )
            &&& uri.object matches Some(label) ==> template.contains(
                AttributeView {
                    tag: 0x03,
                    value: AttributeValueView::ByteString(encode_utf8(label)),
                },
            )
            &&& uri.id matches Some(id) ==> template.contains(
                AttributeView { tag: 0x102, value: AttributeValueView::ByteString(id) },
            )
        },
{
    let template = find_template(uri, class_of(half));
    assert(template[0] == AttributeView {
        tag: 0x00,
        value: AttributeValueView::ObjectKind(class_of(half)),
    });
    if let Some(label) = uri.object {
        assert(template[1] == bytes_attr(ck::CKA_LABEL, encode_utf8(label)));
    }
    if let Some(id) = uri.id {
        assert(template.last() == bytes_attr(ck::CKA_ID, id));
        assert(template[template.len() - 1] == bytes_attr(ck::CKA_ID, id));
    }
}

/// A search asks for nothing beyond that: as many things as the URI names, and
/// each of them one of those.
pub proof fn law_search_asks_for_nothing_else(uri: Pkcs11UriView, half: KeyHalf, i: int)
    requires
        find_start(uri, half) is Call,
        find_start(uri, half)->Call_1 is FindInit,
        0 <= i < find_start(uri, half)->Call_1->template.len(),
    ensures
        ({
            let template = find_start(uri, half)->Call_1->template;
            &&& template.len() == 1 + (if uri.object is Some {
                1int
            } else {
                0
            }) + (if uri.id is Some {
                1int
            } else {
                0
            })
            &&& match template[i].value {
                AttributeValueView::ObjectKind(_) => template[i].tag == 0x00 && i == 0,
                AttributeValueView::ByteString(b) => (template[i].tag == 0x03 && uri.object
                    is Some && b == encode_utf8(uri.object->0)) || (template[i].tag == 0x102
                    && uri.id == Some(b)),
                _ => false,
            }
        }),
{
}

/// How a search goes on: one handle is asked for, the search is ended, and the
/// handle is bound for the half that was looked for. Each reply that is no
/// failure counts like any other; how the search ends does not matter at all.
pub proof fn law_search_goes_on(
    uri: Pkcs11UriView,
    half: KeyHalf,
    handle: u64,
    reply: HostReplyView,
)
    ensures
        !(reply is Failed) ==> find_step(uri, half, FindState::Searching, reply) == StepView::Call(
            FindState::Fetching,
            HostCallView::FindNext { max: 1 },
        ),
        !(reply is Failed) ==> find_step(uri, half, FindState::Fetching, reply) == StepView::Call(
            FindState::Finishing(
                if reply is Handles && reply->Handles_0.len() > 0 {
                    Some(reply->Handles_0[0])
                } else {
                    None
                },
            ),
            HostCallView::FindFinish,
        ),
        find_step(uri, half, FindState::Finishing(Some(handle)), reply) == StepView::Call(
            FindState::Binding,
            HostCallView::BindObject { half, handle },
        ),
        !(reply is Failed) ==> find_step(uri, half, FindState::Binding, reply) == StepView::<
            FindState,
        >::Done,
{
}

/// How a search fails: with the token's error, if the search cannot be started,
/// gives no answer or its object cannot be bound; and if nothing matches, with
/// a message that names the class, the label and the identifier.
pub proof fn law_search_fails(
    uri: Pkcs11UriView,
    half: KeyHalf,
    code: Seq<char>,
    reply: HostReplyView,
)
    ensures
        find_step(uri, half, FindState::Searching, HostReplyView::Failed(code)) == StepView::<
            FindState,
        >::Fail(backend_error(code)),
        find_step(uri, half, FindState::Fetching, HostReplyView::Failed(code)) == StepView::<
            FindState,
        >::Fail(backend_error(code)),
        find_step(uri, half, FindState::Binding, HostReplyView::Failed(code)) == StepView::<
            FindState,
        >::Fail(backend_error(code)),
        find_step(uri, half, FindState::Finishing(None), reply) == StepView::<FindState>::Fail(
            BackendErrorView {
                kind: ErrorKind::KeyNotFound,
                text: "no object matched URI (class=0x"@ + (if half == KeyHalf::Private {
                    seq!['0', '3']
                } else {
                    seq!['0', '2']
                }) + ", label="@ + label_debug(uri.object) + ", id="@ + id_debug(uri.id) + ")"@,
            },
        ),
{
    assert(hex_text_2(2) =~= seq!['0', '2']);
    assert(hex_text_2(3) =~= seq!['0', '3']);
}

} // verus!
