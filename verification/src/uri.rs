//! `pkcs11:` URIs: which slot, which object, and how to log in.
//!
//! The grammar is a subset of RFC 7512. Path attributes are separated by `;`,
//! query attributes follow a `?` and are separated by `&`; all of them form
//! one keyspace here, so the three separators are alike.
use crate::number::{parse_u64, u64_in};
use crate::pct::{law_escapes_decode, pct_bytes, pct_decode, pct_text, unescape};
use crate::text::{chars_of, join, same_text};
use vstd::prelude::*;
use vstd::string::*;
use vstd::utf8::encode_utf8;

verus! {

/// What a `pkcs11:` URI says.
#[derive(Debug, Clone)]
pub struct Pkcs11Uri {
    /// The slot, `slot-id=`.
    pub slot_id: Option<u64>,
    /// `CKA_LABEL` of the object, `object=`.
    pub object: Option<String>,
    /// `CKA_ID` of the object, `id=`.
    pub id: Option<Vec<u8>>,
    /// The user PIN, `pin-value=`.
    pub pin: Option<String>,
    /// Whether to provision the token and the key where they are missing, `init=`.
    pub init: bool,
    /// The security officer's PIN for provisioning, `so-pin=`.
    pub so_pin: Option<String>,
    /// The algorithm of a key to generate, `algorithm=`.
    pub algorithm: Option<String>,
}

/// What a [`Pkcs11Uri`] says, as mathematical values.
#[verifier::ext_equal]
pub struct Pkcs11UriView {
    pub slot_id: Option<u64>,
    pub object: Option<Seq<char>>,
    pub id: Option<Seq<u8>>,
    pub pin: Option<Seq<char>>,
    pub init: bool,
    pub so_pin: Option<Seq<char>>,
    pub algorithm: Option<Seq<char>>,
}

/// The text in an optional string.
pub open spec fn opt_text(o: Option<String>) -> Option<Seq<char>> {
    match o {
        Some(s) => Some(s@),
        None => None,
    }
}

/// The bytes in an optional vector.
pub open spec fn opt_bytes(o: Option<Vec<u8>>) -> Option<Seq<u8>> {
    match o {
        Some(v) => Some(v@),
        None => None,
    }
}

impl View for Pkcs11Uri {
    type V = Pkcs11UriView;

    open spec fn view(&self) -> Pkcs11UriView {
        Pkcs11UriView {
            slot_id: self.slot_id,
            object: opt_text(self.object),
            id: opt_bytes(self.id),
            pin: opt_text(self.pin),
            init: self.init,
            so_pin: opt_text(self.so_pin),
            algorithm: opt_text(self.algorithm),
        }
    }
}

// ---------------------------------------------------------------------------
// The grammar
// ---------------------------------------------------------------------------

/// `c` separates attributes.
pub open spec fn is_separator(c: char) -> bool {
    c == ';' || c == '?' || c == '&'
}

/// How many characters stand in front of the first separator of `s`.
pub open spec fn segment_end(s: Seq<char>) -> int
    decreases s.len(),
{
    if s.len() == 0 || is_separator(s[0]) {
        0
    } else {
        1 + segment_end(s.drop_first())
    }
}

/// The pieces of `s` between separators.
pub open spec fn segments(s: Seq<char>) -> Seq<Seq<char>>
    decreases s.len(),
    via segments_decreases
{
    let end = segment_end(s);
    if end >= s.len() {
        seq![s]
    } else {
        seq![s.take(end)] + segments(s.skip(end + 1))
    }
}

#[via_fn]
proof fn segments_decreases(s: Seq<char>) {
    lemma_segment_end(s);
}

/// How many characters stand in front of the first `=` of `kv`.
pub open spec fn key_end(kv: Seq<char>) -> int
    decreases kv.len(),
{
    if kv.len() == 0 || kv[0] == '=' {
        0
    } else {
        1 + key_end(kv.drop_first())
    }
}

/// `kv` has the form `key=value`.
pub open spec fn has_key(kv: Seq<char>) -> bool {
    key_end(kv) < kv.len()
}

/// The key of an attribute.
pub open spec fn key_of(kv: Seq<char>) -> Seq<char> {
    kv.take(key_end(kv))
}

/// The value of an attribute as it is written.
pub open spec fn value_of(kv: Seq<char>) -> Seq<char> {
    kv.skip(key_end(kv) + 1)
}

/// `key` is known and means nothing here.
pub open spec fn is_ignored_key(key: Seq<char>) -> bool {
    ||| key == "token"@
    ||| key == "manufacturer"@
    ||| key == "model"@
    ||| key == "library-version"@
    ||| key == "library-manufacturer"@
    ||| key == "library-description"@
    ||| key == "serial"@
    ||| key == "type"@
    ||| key == "module-path"@
    ||| key == "module-name"@
}

/// `value` switches provisioning on.
pub open spec fn is_yes(value: Seq<char>) -> bool {
    value == "true"@ || value == "1"@ || value == "yes"@ || value == "auto"@
}

impl Pkcs11UriView {
    /// Nothing said yet.
    pub open spec fn empty() -> Pkcs11UriView {
        Pkcs11UriView {
            slot_id: None,
            object: None,
            id: None,
            pin: None,
            init: false,
            so_pin: None,
            algorithm: None,
        }
    }

    /// This with one more attribute, or why that attribute is refused. The
    /// value `raw` is percent-encoded: an identifier is the bytes that it
    /// spells, any other value is a text.
    pub open spec fn with_attr(self, key: Seq<char>, raw: Seq<char>) -> Result<
        Pkcs11UriView,
        Seq<char>,
    > {
        let value = pct_text(raw);
        if key == "slot-id"@ {
            match u64_in(value) {
                Some(n) => Ok(Pkcs11UriView { slot_id: Some(n), ..self }),
                None => Err("bad slot-id: "@ + value),
            }
        } else if key == "object"@ {
            Ok(Pkcs11UriView { object: Some(value), ..self })
        } else if key == "id"@ {
            Ok(Pkcs11UriView { id: Some(pct_bytes(encode_utf8(raw))), ..self })
        } else if key == "pin-value"@ {
            Ok(Pkcs11UriView { pin: Some(value), ..self })
        } else if key == "init"@ {
            Ok(Pkcs11UriView { init: is_yes(value), ..self })
        } else if key == "so-pin"@ {
            Ok(Pkcs11UriView { so_pin: Some(value), ..self })
        } else if key == "algorithm"@ {
            Ok(Pkcs11UriView { algorithm: Some(value), ..self })
        } else if is_ignored_key(key) {
            Ok(self)
        } else {
            Err("unsupported pkcs11 attr: "@ + key)
        }
    }

    /// This with one more piece of the URI; an empty piece says nothing.
    pub open spec fn with_segment(self, kv: Seq<char>) -> Result<Pkcs11UriView, Seq<char>> {
        if kv.len() == 0 {
            Ok(self)
        } else if !has_key(kv) {
            Err("bad pkcs11 attr: "@ + kv)
        } else {
            self.with_attr(key_of(kv), value_of(kv))
        }
    }

    /// This with several more pieces, first to last; the first refusal stands.
    pub open spec fn with_segments(self, kvs: Seq<Seq<char>>) -> Result<Pkcs11UriView, Seq<char>>
        decreases kvs.len(),
    {
        if kvs.len() == 0 {
            Ok(self)
        } else {
            match self.with_segment(kvs[0]) {
                Ok(u) => u.with_segments(kvs.drop_first()),
                Err(e) => Err(e),
            }
        }
    }

    /// Enough is said to find a key: a slot, and a label or an identifier.
    pub open spec fn checked(self) -> Result<Pkcs11UriView, Seq<char>> {
        if self.slot_id is None {
            Err("pkcs11-bridge: URI must include slot-id=N"@)
        } else if self.object is None && self.id is None {
            Err("pkcs11-bridge: URI must include object= or id="@)
        } else {
            Ok(self)
        }
    }
}

/// What the attributes behind the scheme say, or why they are refused.
pub open spec fn parse_attrs(body: Seq<char>) -> Result<Pkcs11UriView, Seq<char>> {
    match Pkcs11UriView::empty().with_segments(segments(body)) {
        Ok(u) => u.checked(),
        Err(e) => Err(e),
    }
}

/// `s` starts with the scheme.
pub open spec fn has_scheme(s: Seq<char>) -> bool {
    "pkcs11:"@.is_prefix_of(s)
}

/// What the URI `s` says, or why it is refused.
pub open spec fn parse_uri(s: Seq<char>) -> Result<Pkcs11UriView, Seq<char>> {
    if !has_scheme(s) {
        Err("not a pkcs11 URI: "@ + s)
    } else {
        parse_attrs(s.skip("pkcs11:"@.len() as int))
    }
}

// ---------------------------------------------------------------------------
// The parser
// ---------------------------------------------------------------------------

/// Where the first segment ends.
proof fn lemma_segment_end(s: Seq<char>)
    ensures
        0 <= segment_end(s) <= s.len(),
        forall|j: int| 0 <= j < segment_end(s) ==> !is_separator(#[trigger] s[j]),
        segment_end(s) < s.len() ==> is_separator(s[segment_end(s)]),
    decreases s.len(),
{
    if s.len() > 0 && !is_separator(s[0]) {
        lemma_segment_end(s.drop_first());
        assert forall|j: int| 0 <= j < segment_end(s) implies !is_separator(#[trigger] s[j]) by {
            if j > 0 {
                assert(s[j] == s.drop_first()[j - 1]);
            }
        }
    }
}

/// Where the key ends.
proof fn lemma_key_end(kv: Seq<char>)
    ensures
        0 <= key_end(kv) <= kv.len(),
        forall|j: int| 0 <= j < key_end(kv) ==> #[trigger] kv[j] != '=',
        key_end(kv) < kv.len() ==> kv[key_end(kv)] == '=',
    decreases kv.len(),
{
    if kv.len() > 0 && kv[0] != '=' {
        lemma_key_end(kv.drop_first());
        assert forall|j: int| 0 <= j < key_end(kv) implies #[trigger] kv[j] != '=' by {
            if j > 0 {
                assert(kv[j] == kv.drop_first()[j - 1]);
            }
        }
    }
}

/// Finds the first separator in `chars` from `from` on.
fn find_separator(chars: &Vec<char>, from: usize) -> (end: usize)
    requires
        from <= chars@.len(),
    ensures
        end == from + segment_end(chars@.skip(from as int)),
        from <= end <= chars@.len(),
{
    let ghost rest = chars@.skip(from as int);
    let mut end: usize = from;
    while end < chars.len() && !(chars[end] == ';' || chars[end] == '?' || chars[end] == '&')
        invariant
            from <= end <= chars@.len(),
            rest == chars@.skip(from as int),
            forall|j: int| 0 <= j < end - from ==> !is_separator(#[trigger] rest[j]),
        decreases chars@.len() - end,
    {
        assert(rest[end - from] == chars@[end as int]);
        end += 1;
    }
    proof {
        lemma_segment_end(rest);
        let e = segment_end(rest);
        if e < end - from {
            assert(!is_separator(rest[e]));
        }
        if end - from < e {
            assert(rest[end - from] == chars@[end as int]);
        }
    }
    end
}

/// Finds the first `=` in `chars`.
fn find_equals(chars: &Vec<char>) -> (end: usize)
    ensures
        end == key_end(chars@),
        end <= chars@.len(),
{
    let mut end: usize = 0;
    while end < chars.len() && chars[end] != '='
        invariant
            end <= chars@.len(),
            forall|j: int| 0 <= j < end ==> #[trigger] chars@[j] != '=',
        decreases chars@.len() - end,
    {
        end += 1;
    }
    proof {
        lemma_key_end(chars@);
        let e = key_end(chars@);
        if e < end {
            assert(chars@[e] != '=');
        }
    }
    end
}

/// Tells whether `key` is known and means nothing here.
fn ignores(key: &str) -> (r: bool)
    ensures
        r == is_ignored_key(key@),
{
    same_text(key, "token") || same_text(key, "manufacturer") || same_text(key, "model")
        || same_text(key, "library-version") || same_text(key, "library-manufacturer")
        || same_text(key, "library-description") || same_text(key, "serial") || same_text(
        key,
        "type",
    ) || same_text(key, "module-path") || same_text(key, "module-name")
}

impl Default for Pkcs11Uri {
    fn default() -> (u: Pkcs11Uri)
        ensures
            u@ == Pkcs11UriView::empty(),
    {
        Pkcs11Uri {
            slot_id: None,
            object: None,
            id: None,
            pin: None,
            init: false,
            so_pin: None,
            algorithm: None,
        }
    }
}

impl Pkcs11Uri {
    /// Takes one attribute up.
    fn set_attr(&mut self, key: &str, raw: &str) -> (r: Result<(), String>)
        ensures
            match r {
                Ok(()) => old(self)@.with_attr(key@, raw@) == Ok::<Pkcs11UriView, Seq<char>>(
                    final(self)@,
                ),
                Err(e) => old(self)@.with_attr(key@, raw@) == Err::<Pkcs11UriView, Seq<char>>(e@),
            },
    {
        let value: String = pct_decode(raw);
        if same_text(key, "slot-id") {
            match parse_u64(value.as_str()) {
                Some(n) => {
                    self.slot_id = Some(n);
                },
                None => {
                    return Err(join("bad slot-id: ", value.as_str()));
                },
            }
        } else if same_text(key, "object") {
            self.object = Some(value);
        } else if same_text(key, "id") {
            self.id = Some(unescape(raw.as_bytes()));
        } else if same_text(key, "pin-value") {
            self.pin = Some(value);
        } else if same_text(key, "init") {
            let v: &str = value.as_str();
            self.init = same_text(v, "true") || same_text(v, "1") || same_text(v, "yes")
                || same_text(v, "auto");
        } else if same_text(key, "so-pin") {
            self.so_pin = Some(value);
        } else if same_text(key, "algorithm") {
            self.algorithm = Some(value);
        } else if !ignores(key) {
            return Err(join("unsupported pkcs11 attr: ", key));
        }
        Ok(())
    }

    /// Takes one piece of the URI up.
    fn set_segment(&mut self, kv: &str) -> (r: Result<(), String>)
        ensures
            match r {
                Ok(()) => old(self)@.with_segment(kv@) == Ok::<Pkcs11UriView, Seq<char>>(
                    final(self)@,
                ),
                Err(e) => old(self)@.with_segment(kv@) == Err::<Pkcs11UriView, Seq<char>>(e@),
            },
    {
        let chars: Vec<char> = chars_of(kv);
        if chars.len() == 0 {
            return Ok(());
        }
        let end: usize = find_equals(&chars);
        if end == chars.len() {
            return Err(join("bad pkcs11 attr: ", kv));
        }
        let key: &str = kv.substring_char(0, end);
        let raw: &str = kv.substring_char(end + 1, chars.len());
        assert(key@ =~= key_of(kv@));
        assert(raw@ =~= value_of(kv@));
        self.set_attr(key, raw)
    }

    /// Parses a `pkcs11:` URI.
    pub fn parse(s: &str) -> (r: Result<Pkcs11Uri, String>)
        ensures
            match r {
                Ok(u) => parse_uri(s@) == Ok::<Pkcs11UriView, Seq<char>>(u@),
                Err(e) => parse_uri(s@) == Err::<Pkcs11UriView, Seq<char>>(e@),
            },
    {
        let chars: Vec<char> = chars_of(s);
        proof {
            reveal_strlit("pkcs11:");
        }
        if chars.len() < 7 || !same_text(s.substring_char(0, 7), "pkcs11:") {
            assert(!has_scheme(s@)) by {
                if has_scheme(s@) {
                    assert(s@.subrange(0, 7) =~= "pkcs11:"@);
                }
            }
            return Err(join("not a pkcs11 URI: ", s));
        }
        let mut out: Pkcs11Uri = Pkcs11Uri::default();
        let mut pos: usize = 7;
        let ghost whole = Pkcs11UriView::empty().with_segments(segments(s@.skip(7)));
        loop
            invariant
                chars@ == s@,
                pos <= chars@.len(),
                has_scheme(s@),
                "pkcs11:"@.len() == 7,
                whole == Pkcs11UriView::empty().with_segments(segments(s@.skip(7))),
                whole == out@.with_segments(segments(s@.skip(pos as int))),
            ensures
                whole == Ok::<Pkcs11UriView, Seq<char>>(out@),
            decreases chars@.len() - pos,
        {
            let ghost rest = s@.skip(pos as int);
            let end: usize = find_separator(&chars, pos);
            let kv: &str = s.substring_char(pos, end);
            proof {
                lemma_segment_end(rest);
                assert(kv@ =~= rest.take(segment_end(rest)));
                assert(segments(rest)[0] =~= kv@);
            }
            match out.set_segment(kv) {
                Ok(()) => {},
                Err(e) => {
                    return Err(e);
                },
            }
            if end == chars.len() {
                assert(segments(rest).drop_first() =~= Seq::<Seq<char>>::empty());
                assert(out@.with_segments(Seq::<Seq<char>>::empty()) == Ok::<
                    Pkcs11UriView,
                    Seq<char>,
                >(out@));
                break;
            }
            assert(rest.skip(segment_end(rest) + 1) =~= s@.skip(end + 1));
            assert(segments(rest).drop_first() =~= segments(s@.skip(end + 1)));
            pos = end + 1;
        }
        if out.slot_id.is_none() {
            return Err("pkcs11-bridge: URI must include slot-id=N".to_owned());
        }
        if out.object.is_none() && out.id.is_none() {
            return Err("pkcs11-bridge: URI must include object= or id=".to_owned());
        }
        Ok(out)
    }
}

// ---------------------------------------------------------------------------
// Laws
// ---------------------------------------------------------------------------

/// `kv` is refused in no URI: it is empty, or a supported attribute whose
/// value can be read.
pub open spec fn is_acceptable(kv: Seq<char>) -> bool {
    kv.len() > 0 ==> has_key(kv) && Pkcs11UriView::empty().with_attr(key_of(kv), value_of(kv)) is Ok
}

/// One of the pieces is an attribute with key `key`.
pub open spec fn names_key(kvs: Seq<Seq<char>>, key: Seq<char>) -> bool {
    exists|i: int| 0 <= i < kvs.len() && is_attr(#[trigger] kvs[i], key)
}

/// `kv` is an attribute with key `key`.
pub open spec fn is_attr(kv: Seq<char>, key: Seq<char>) -> bool {
    kv.len() > 0 && has_key(kv) && key_of(kv) == key
}

/// `s` with every separator written as `;`.
pub open spec fn with_semicolons(s: Seq<char>) -> Seq<char> {
    s.map_values(
        |c: char|
            if is_separator(c) {
                ';'
            } else {
                c
            },
    )
}

/// The scheme followed by `body` is parsed by the attributes in `body`.
proof fn lemma_scheme(body: Seq<char>)
    ensures
        has_scheme("pkcs11:"@ + body),
        parse_uri("pkcs11:"@ + body) == parse_attrs(body),
{
    reveal_strlit("pkcs11:");
    let s = "pkcs11:"@ + body;
    assert("pkcs11:"@ =~= s.subrange(0, 7));
    assert(s.skip(7) =~= body);
}

/// Pieces are taken up one after the other.
proof fn lemma_with_segments_concat(u: Pkcs11UriView, a: Seq<Seq<char>>, b: Seq<Seq<char>>)
    ensures
        u.with_segments(a + b) == (match u.with_segments(a) {
            Ok(v) => v.with_segments(b),
            Err(e) => Err(e),
        }),
    decreases a.len(),
{
    if a.len() == 0 {
        assert(a + b =~= b);
    } else {
        assert((a + b).drop_first() =~= a.drop_first() + b);
        match u.with_segment(a[0]) {
            Ok(v) => {
                lemma_with_segments_concat(v, a.drop_first(), b);
            },
            Err(e) => {},
        }
    }
}

/// A separator between two texts separates their pieces.
proof fn lemma_segments_join(a: Seq<char>, sep: char, b: Seq<char>)
    requires
        is_separator(sep),
    ensures
        segments(a.push(sep) + b) == segments(a) + segments(b),
    decreases a.len(),
{
    let s = a.push(sep) + b;
    lemma_segment_end(a);
    lemma_segment_end(s);
    let e = segment_end(a);
    assert(segment_end(s) == e) by {
        if segment_end(s) < e {
            assert(s[segment_end(s)] == a[segment_end(s)]);
        }
        if e < segment_end(s) {
            assert(!is_separator(s[e]));
        }
    }
    assert(s.take(e) =~= a.take(e));
    if e == a.len() {
        assert(a.take(e) =~= a);
        assert(s.skip(e + 1) =~= b);
        assert(segments(s) =~= seq![a] + segments(b));
    } else {
        let rest = a.skip(e + 1);
        assert(s.skip(e + 1) =~= rest.push(sep) + b);
        lemma_segments_join(rest, sep, b);
        assert(segments(s) =~= segments(a) + segments(b));
    }
}

/// Text without a separator is one piece.
proof fn lemma_single_segment(kv: Seq<char>)
    requires
        forall|i: int| 0 <= i < kv.len() ==> !is_separator(#[trigger] kv[i]),
    ensures
        segments(kv) == seq![kv],
{
    lemma_segment_end(kv);
}

/// Whether a piece is refused does not depend on what was said before it.
proof fn lemma_acceptable(u: Pkcs11UriView, kv: Seq<char>)
    ensures
        u.with_segment(kv) is Ok <==> is_acceptable(kv),
{
}

/// What acceptable pieces leave behind.
proof fn lemma_with_segments(u: Pkcs11UriView, kvs: Seq<Seq<char>>)
    ensures
        u.with_segments(kvs) is Ok <==> forall|i: int|
            0 <= i < kvs.len() ==> is_acceptable(#[trigger] kvs[i]),
        u.with_segments(kvs) matches Ok(v) ==> {
            &&& v.slot_id is Some <==> u.slot_id is Some || names_key(kvs, "slot-id"@)
            &&& v.object is Some <==> u.object is Some || names_key(kvs, "object"@)
            &&& v.id is Some <==> u.id is Some || names_key(kvs, "id"@)
        },
    decreases kvs.len(),
{
    reveal_strlit("slot-id");
    reveal_strlit("object");
    reveal_strlit("id");
    assert("slot-id"@.len() == 7 && "object"@.len() == 6 && "id"@.len() == 2);
    if kvs.len() > 0 {
        let rest = kvs.drop_first();
        lemma_acceptable(u, kvs[0]);
        assert forall|key: Seq<char>| #[trigger] names_key(kvs, key) <==> is_attr(kvs[0], key)
            || names_key(rest, key) by {
            if names_key(kvs, key) {
                let i = choose|i: int| 0 <= i < kvs.len() && is_attr(#[trigger] kvs[i], key);
                if i > 0 {
                    assert(rest[i - 1] == kvs[i]);
                }
            }
            if names_key(rest, key) {
                let i = choose|i: int| 0 <= i < rest.len() && is_attr(#[trigger] rest[i], key);
                assert(kvs[i + 1] == rest[i]);
            }
        }
        match u.with_segment(kvs[0]) {
            Ok(v) => {
                lemma_with_segments(v, rest);
                if u.with_segments(kvs) is Ok {
                    assert forall|i: int| 0 <= i < kvs.len() implies is_acceptable(
                        #[trigger] kvs[i],
                    ) by {
                        if i > 0 {
                            assert(rest[i - 1] == kvs[i]);
                        }
                    }
                }
                if forall|i: int| 0 <= i < kvs.len() ==> is_acceptable(#[trigger] kvs[i]) {
                    assert forall|i: int| 0 <= i < rest.len() implies is_acceptable(
                        #[trigger] rest[i],
                    ) by {
                        assert(rest[i] == kvs[i + 1]);
                    }
                }
            },
            Err(e) => {
                assert(!is_acceptable(kvs[0]));
            },
        }
    }
}

/// A URI is accepted if and only if it has the scheme, every piece of it is
/// acceptable, and it names a slot and a label or an identifier.
pub proof fn law_accepted_iff(body: Seq<char>)
    ensures
        parse_uri("pkcs11:"@ + body) is Ok <==> {
            &&& forall|i: int|
                0 <= i < segments(body).len() ==> is_acceptable(#[trigger] segments(body)[i])
            &&& names_key(segments(body), "slot-id"@)
            &&& names_key(segments(body), "object"@) || names_key(segments(body), "id"@)
        },
{
    lemma_scheme(body);
    lemma_with_segments(Pkcs11UriView::empty(), segments(body));
}

/// What is accepted says where to look: a slot, and a label or an identifier.
pub proof fn law_accepted_is_complete(s: Seq<char>)
    ensures
        parse_uri(s) matches Ok(u) ==> has_scheme(s) && u.slot_id is Some && (u.object is Some
            || u.id is Some),
{
}

/// Path and query attributes form one keyspace: writing `?` or `&` in place
/// of `;` changes nothing.
pub proof fn law_separators_alike(body: Seq<char>)
    ensures
        parse_uri("pkcs11:"@ + with_semicolons(body)) == parse_uri("pkcs11:"@ + body),
{
    lemma_scheme(body);
    lemma_scheme(with_semicolons(body));
    lemma_with_semicolons(body);
}

/// The pieces between separators do not show which separators they were.
proof fn lemma_with_semicolons(s: Seq<char>)
    ensures
        segments(with_semicolons(s)) == segments(s),
    decreases s.len(),
{
    let t = with_semicolons(s);
    lemma_segment_end(s);
    lemma_segment_end(t);
    let e = segment_end(s);
    assert(segment_end(t) == e) by {
        if segment_end(t) < e {
            assert(!is_separator(s[segment_end(t)]));
        }
        if e < segment_end(t) {
            assert(!is_separator(t[e]));
        }
    }
    assert(t.take(e) =~= s.take(e)) by {
        assert forall|i: int| 0 <= i < e implies t[i] == s[i] by {
            assert(!is_separator(s[i]));
        }
    }
    if e < s.len() {
        assert(t.skip(e + 1) =~= with_semicolons(s.skip(e + 1)));
        lemma_with_semicolons(s.skip(e + 1));
    } else {
        assert(t.take(e) =~= t);
        assert(s.take(e) =~= s);
    }
}

/// An empty piece says nothing: a separator more at the end, or at the front,
/// changes nothing.
pub proof fn law_empty_piece(body: Seq<char>, sep: char)
    requires
        is_separator(sep),
    ensures
        parse_uri("pkcs11:"@ + body.push(sep)) == parse_uri("pkcs11:"@ + body),
        parse_uri("pkcs11:"@ + (seq![sep] + body)) == parse_uri("pkcs11:"@ + body),
{
    let none = Seq::<char>::empty();
    let u = Pkcs11UriView::empty();
    lemma_scheme(body);
    lemma_scheme(body.push(sep));
    lemma_scheme(seq![sep] + body);
    lemma_single_segment(none);
    lemma_segments_join(body, sep, none);
    assert(body.push(sep) + none =~= body.push(sep));
    lemma_with_segments_concat(u, segments(body), seq![none]);
    assert forall|v: Pkcs11UriView| #[trigger] v.with_segments(seq![none]) == Ok::<
        Pkcs11UriView,
        Seq<char>,
    >(v) by {
        reveal_with_fuel(Pkcs11UriView::with_segments, 2);
    }
    lemma_segments_join(none, sep, body);
    assert(none.push(sep) + body =~= seq![sep] + body);
    lemma_with_segments_concat(u, seq![none], segments(body));
}

/// How a piece in the middle of a URI takes part.
proof fn lemma_middle(a: Seq<char>, sep1: char, kv: Seq<char>, sep2: char, b: Seq<char>)
    requires
        is_separator(sep1),
        is_separator(sep2),
        forall|i: int| 0 <= i < kv.len() ==> !is_separator(#[trigger] kv[i]),
    ensures
        segments(a.push(sep1) + (kv.push(sep2) + b)) == segments(a) + (seq![kv] + segments(b)),
{
    lemma_single_segment(kv);
    lemma_segments_join(kv, sep2, b);
    lemma_segments_join(a, sep1, kv.push(sep2) + b);
}

/// Taking up one piece and then others.
proof fn lemma_one_then(u: Pkcs11UriView, kv: Seq<char>, kvs: Seq<Seq<char>>)
    ensures
        u.with_segments(seq![kv] + kvs) == (match u.with_segment(kv) {
            Ok(v) => v.with_segments(kvs),
            Err(e) => Err(e),
        }),
{
    assert((seq![kv] + kvs).drop_first() =~= kvs);
}

/// An attribute that is known and means nothing changes nothing, wherever it
/// stands.
pub proof fn law_ignored_attribute(
    a: Seq<char>,
    sep1: char,
    kv: Seq<char>,
    sep2: char,
    b: Seq<char>,
)
    requires
        is_separator(sep1),
        is_separator(sep2),
        forall|i: int| 0 <= i < kv.len() ==> !is_separator(#[trigger] kv[i]),
        has_key(kv),
        is_ignored_key(key_of(kv)),
    ensures
        parse_uri("pkcs11:"@ + (a.push(sep1) + (kv.push(sep2) + b))) == parse_uri(
            "pkcs11:"@ + (a.push(sep1) + b),
        ),
{
    let u = Pkcs11UriView::empty();
    lemma_one_in_the_middle(a, sep1, kv, sep2, b);
    lemma_scheme(a.push(sep1) + b);
    lemma_segments_join(a, sep1, b);
    lemma_with_segments_concat(u, segments(a), segments(b));
    lemma_ignored_keys_are_not_used(key_of(kv));
}

/// The keys that mean nothing are none of those that mean something.
proof fn lemma_ignored_keys_are_not_used(key: Seq<char>)
    requires
        is_ignored_key(key),
    ensures
        key != "slot-id"@,
        key != "object"@,
        key != "id"@,
        key != "pin-value"@,
        key != "init"@,
        key != "so-pin"@,
        key != "algorithm"@,
{
    reveal_strlit("slot-id");
    reveal_strlit("object");
    reveal_strlit("id");
    reveal_strlit("pin-value");
    reveal_strlit("init");
    reveal_strlit("so-pin");
    reveal_strlit("algorithm");
    reveal_strlit("token");
    reveal_strlit("manufacturer");
    reveal_strlit("model");
    reveal_strlit("library-version");
    reveal_strlit("library-manufacturer");
    reveal_strlit("library-description");
    reveal_strlit("serial");
    reveal_strlit("type");
    reveal_strlit("module-path");
    reveal_strlit("module-name");
    assert("slot-id"@.len() == 7 && "object"@.len() == 6 && "id"@.len() == 2 && "pin-value"@.len()
        == 9 && "init"@.len() == 4 && "so-pin"@.len() == 6 && "algorithm"@.len() == 9);
    assert("token"@.len() == 5 && "manufacturer"@.len() == 12 && "model"@.len() == 5
        && "library-version"@.len() == 15 && "library-manufacturer"@.len() == 20
        && "library-description"@.len() == 19 && "serial"@.len() == 6 && "type"@.len() == 4
        && "module-path"@.len() == 11 && "module-name"@.len() == 11);
    assert("init"@[0] == 'i' && "type"@[0] == 't');
    assert("object"@[1] == 'b' && "so-pin"@[1] == 'o' && "serial"@[1] == 'e');
}

/// Two pieces in the middle of a URI take part one after the other.
proof fn lemma_two_in_the_middle(
    a: Seq<char>,
    sep1: char,
    kv1: Seq<char>,
    sep2: char,
    kv2: Seq<char>,
    sep3: char,
    b: Seq<char>,
)
    requires
        is_separator(sep1),
        is_separator(sep2),
        is_separator(sep3),
        forall|i: int| 0 <= i < kv1.len() ==> !is_separator(#[trigger] kv1[i]),
        forall|i: int| 0 <= i < kv2.len() ==> !is_separator(#[trigger] kv2[i]),
    ensures
        parse_uri("pkcs11:"@ + (a.push(sep1) + (kv1.push(sep2) + (kv2.push(sep3) + b)))) == (
        match Pkcs11UriView::empty().with_segments(segments(a)) {
            Ok(u) => match u.with_segment(kv1) {
                Ok(v) => match v.with_segment(kv2) {
                    Ok(w) => match w.with_segments(segments(b)) {
                        Ok(x) => x.checked(),
                        Err(e) => Err(e),
                    },
                    Err(e) => Err(e),
                },
                Err(e) => Err(e),
            },
            Err(e) => Err(e),
        }),
{
    let u = Pkcs11UriView::empty();
    let tail = kv2.push(sep3) + b;
    lemma_scheme(a.push(sep1) + (kv1.push(sep2) + tail));
    lemma_middle(a, sep1, kv1, sep2, tail);
    lemma_single_segment(kv2);
    lemma_segments_join(kv2, sep3, b);
    lemma_with_segments_concat(u, segments(a), seq![kv1] + segments(tail));
    match u.with_segments(segments(a)) {
        Ok(u1) => {
            lemma_one_then(u1, kv1, segments(tail));
            match u1.with_segment(kv1) {
                Ok(u2) => {
                    lemma_one_then(u2, kv2, segments(b));
                },
                Err(e) => {},
            }
        },
        Err(e) => {},
    }
}

/// One piece in the middle of a URI takes part by itself.
proof fn lemma_one_in_the_middle(a: Seq<char>, sep1: char, kv: Seq<char>, sep2: char, b: Seq<char>)
    requires
        is_separator(sep1),
        is_separator(sep2),
        forall|i: int| 0 <= i < kv.len() ==> !is_separator(#[trigger] kv[i]),
    ensures
        parse_uri("pkcs11:"@ + (a.push(sep1) + (kv.push(sep2) + b))) == (
        match Pkcs11UriView::empty().with_segments(segments(a)) {
            Ok(u) => match u.with_segment(kv) {
                Ok(v) => match v.with_segments(segments(b)) {
                    Ok(x) => x.checked(),
                    Err(e) => Err(e),
                },
                Err(e) => Err(e),
            },
            Err(e) => Err(e),
        }),
{
    let u = Pkcs11UriView::empty();
    lemma_scheme(a.push(sep1) + (kv.push(sep2) + b));
    lemma_middle(a, sep1, kv, sep2, b);
    lemma_with_segments_concat(u, segments(a), seq![kv] + segments(b));
    match u.with_segments(segments(a)) {
        Ok(v) => {
            lemma_one_then(v, kv, segments(b));
        },
        Err(e) => {},
    }
}

/// Of two attributes with the same key the later one stands, as long as the
/// earlier one can be read.
pub proof fn law_last_one_stands(
    a: Seq<char>,
    sep1: char,
    kv1: Seq<char>,
    sep2: char,
    kv2: Seq<char>,
    sep3: char,
    b: Seq<char>,
)
    requires
        is_separator(sep1),
        is_separator(sep2),
        is_separator(sep3),
        forall|i: int| 0 <= i < kv1.len() ==> !is_separator(#[trigger] kv1[i]),
        forall|i: int| 0 <= i < kv2.len() ==> !is_separator(#[trigger] kv2[i]),
        is_acceptable(kv1),
        has_key(kv1),
        has_key(kv2),
        key_of(kv1) == key_of(kv2),
    ensures
        parse_uri("pkcs11:"@ + (a.push(sep1) + (kv1.push(sep2) + (kv2.push(sep3) + b))))
            == parse_uri("pkcs11:"@ + (a.push(sep1) + (kv2.push(sep3) + b))),
{
    lemma_two_in_the_middle(a, sep1, kv1, sep2, kv2, sep3, b);
    lemma_one_in_the_middle(a, sep1, kv2, sep3, b);
    lemma_key_end(kv1);
    lemma_key_end(kv2);
    match Pkcs11UriView::empty().with_segments(segments(a)) {
        Ok(u) => {
            lemma_acceptable(u, kv1);
            assert(u.with_segment(kv1)->Ok_0.with_segment(kv2) == u.with_segment(kv2));
        },
        Err(e) => {},
    }
}

/// Attributes with different keys may change places, as long as both can be
/// read.
pub proof fn law_order_is_free(
    a: Seq<char>,
    sep1: char,
    kv1: Seq<char>,
    sep2: char,
    kv2: Seq<char>,
    sep3: char,
    b: Seq<char>,
)
    requires
        is_separator(sep1),
        is_separator(sep2),
        is_separator(sep3),
        forall|i: int| 0 <= i < kv1.len() ==> !is_separator(#[trigger] kv1[i]),
        forall|i: int| 0 <= i < kv2.len() ==> !is_separator(#[trigger] kv2[i]),
        is_acceptable(kv1),
        is_acceptable(kv2),
        key_of(kv1) != key_of(kv2),
    ensures
        parse_uri("pkcs11:"@ + (a.push(sep1) + (kv1.push(sep2) + (kv2.push(sep3) + b))))
            == parse_uri("pkcs11:"@ + (a.push(sep1) + (kv2.push(sep2) + (kv1.push(sep3) + b)))),
{
    lemma_two_in_the_middle(a, sep1, kv1, sep2, kv2, sep3, b);
    lemma_two_in_the_middle(a, sep1, kv2, sep2, kv1, sep3, b);
    match Pkcs11UriView::empty().with_segments(segments(a)) {
        Ok(u) => {
            lemma_acceptable(u, kv1);
            lemma_acceptable(u, kv2);
            let u1 = u.with_segment(kv1)->Ok_0;
            let u2 = u.with_segment(kv2)->Ok_0;
            lemma_acceptable(u1, kv2);
            lemma_acceptable(u2, kv1);
            assert(u1.with_segment(kv2) == u2.with_segment(kv1));
        },
        Err(e) => {},
    }
}

/// An identifier written in `%HH` escapes is the bytes that the escapes
/// spell, whether or not those are UTF-8.
pub proof fn law_escaped_id(u: Pkcs11UriView, escaped: Seq<char>, bytes: Seq<u8>)
    requires
        crate::pct::is_escape_of(encode_utf8(escaped), bytes),
    ensures
        u.with_segment("id="@ + escaped) == Ok::<Pkcs11UriView, Seq<char>>(
            (Pkcs11UriView { id: Some(bytes), ..u }),
        ),
{
    reveal_strlit("id=");
    reveal_strlit("id");
    reveal_strlit("slot-id");
    reveal_strlit("object");
    let kv = "id="@ + escaped;
    lemma_key_end(kv);
    assert(kv[0] == 'i' && kv[1] == 'd' && kv[2] == '=');
    assert(key_of(kv) =~= "id"@);
    assert(kv.skip(3) =~= escaped);
    law_escapes_decode(encode_utf8(escaped), bytes);
}

/// `text` holds none of the three separators.
pub open spec fn is_unseparated(text: Seq<char>) -> bool {
    !text.contains(';') && !text.contains('?') && !text.contains('&')
}

proof fn lemma_unseparated(text: Seq<char>)
    requires
        is_unseparated(text),
    ensures
        forall|i: int| 0 <= i < text.len() ==> !is_separator(#[trigger] text[i]),
{
    assert forall|i: int| 0 <= i < text.len() implies !is_separator(#[trigger] text[i]) by {
        assert(text.contains(text[i]));
    }
}

/// Where pieces end: at each `;`, `?` and `&`, and nowhere else.
pub proof fn law_pieces(a: Seq<char>, sep: char, b: Seq<char>, whole: Seq<char>)
    requires
        sep == ';' || sep == '?' || sep == '&',
        is_unseparated(whole),
    ensures
        segments(a.push(sep) + b) == segments(a) + segments(b),
        segments(whole) == seq![whole],
{
    lemma_segments_join(a, sep, b);
    lemma_unseparated(whole);
    lemma_single_segment(whole);
}

/// What a piece says: the key is all in front of the first `=`, the value all
/// behind it, further `=` included; a piece without `=` has no key.
pub proof fn law_first_equals_parts_a_piece(key: Seq<char>, value: Seq<char>)
    requires
        !key.contains('='),
    ensures
        has_key(key + seq!['='] + value),
        key_of(key + seq!['='] + value) == key,
        value_of(key + seq!['='] + value) == value,
        !has_key(key),
{
    let kv = key + seq!['='] + value;
    lemma_key_end(kv);
    lemma_key_end(key);
    assert(kv[key.len() as int] == '=');
    let e = key_end(kv);
    if e < key.len() {
        assert(kv[e] == key[e]);
        assert(key.contains(key[e]));
    }
    if e > key.len() {
        assert(kv[key.len() as int] != '=');
    }
    assert(kv.take(e) =~= key);
    assert(kv.skip(e + 1) =~= value);
    let k = key_end(key);
    if k < key.len() {
        assert(key.contains(key[k]));
    }
}

/// What each attribute sets: that field and no other. An identifier is the bytes
/// that the value spells, a slot the number that it spells, provisioning is on
/// for four words, and any other value is the text that it spells.
pub proof fn law_attributes_set_their_field(u: Pkcs11UriView, raw: Seq<char>)
    ensures
        u.with_attr("slot-id"@, raw) == (match u64_in(pct_text(raw)) {
            Some(n) => Ok::<Pkcs11UriView, Seq<char>>(Pkcs11UriView { slot_id: Some(n), ..u }),
            None => Err("bad slot-id: "@ + pct_text(raw)),
        }),
        u.with_attr("object"@, raw) == Ok::<Pkcs11UriView, Seq<char>>(
            (Pkcs11UriView { object: Some(pct_text(raw)), ..u }),
        ),
        u.with_attr("id"@, raw) == Ok::<Pkcs11UriView, Seq<char>>(
            (Pkcs11UriView { id: Some(pct_bytes(encode_utf8(raw))), ..u }),
        ),
        u.with_attr("pin-value"@, raw) == Ok::<Pkcs11UriView, Seq<char>>(
            (Pkcs11UriView { pin: Some(pct_text(raw)), ..u }),
        ),
        u.with_attr("init"@, raw) == Ok::<Pkcs11UriView, Seq<char>>(
            (Pkcs11UriView {
                init: pct_text(raw) == "true"@ || pct_text(raw) == "1"@ || pct_text(raw) == "yes"@
                    || pct_text(raw) == "auto"@,
                ..u
            }),
        ),
        u.with_attr("so-pin"@, raw) == Ok::<Pkcs11UriView, Seq<char>>(
            (Pkcs11UriView { so_pin: Some(pct_text(raw)), ..u }),
        ),
        u.with_attr("algorithm"@, raw) == Ok::<Pkcs11UriView, Seq<char>>(
            (Pkcs11UriView { algorithm: Some(pct_text(raw)), ..u }),
        ),
{
    lemma_keys_differ();
}

/// The keys that mean something differ from each other.
proof fn lemma_keys_differ()
    ensures
        "slot-id"@ != "object"@ && "slot-id"@ != "id"@ && "slot-id"@ != "pin-value"@,
        "slot-id"@ != "init"@ && "slot-id"@ != "so-pin"@ && "slot-id"@ != "algorithm"@,
        "object"@ != "id"@ && "object"@ != "pin-value"@ && "object"@ != "init"@,
        "object"@ != "so-pin"@ && "object"@ != "algorithm"@,
        "id"@ != "pin-value"@ && "id"@ != "init"@ && "id"@ != "so-pin"@ && "id"@ != "algorithm"@,
        "pin-value"@ != "init"@ && "pin-value"@ != "so-pin"@ && "pin-value"@ != "algorithm"@,
        "init"@ != "so-pin"@ && "init"@ != "algorithm"@ && "so-pin"@ != "algorithm"@,
{
    reveal_strlit("slot-id");
    reveal_strlit("object");
    reveal_strlit("id");
    reveal_strlit("pin-value");
    reveal_strlit("init");
    reveal_strlit("so-pin");
    reveal_strlit("algorithm");
    assert("slot-id"@.len() == 7 && "object"@.len() == 6 && "id"@.len() == 2 && "pin-value"@.len()
        == 9 && "init"@.len() == 4 && "so-pin"@.len() == 6 && "algorithm"@.len() == 9);
    assert("object"@[0] == 'o' && "so-pin"@[0] == 's');
    assert("pin-value"@[0] == 'p' && "algorithm"@[0] == 'a');
}

/// Ten more keys are known and set nothing, whatever their value; every other key
/// is refused by name.
pub proof fn law_other_attributes_set_nothing(u: Pkcs11UriView, key: Seq<char>, raw: Seq<char>)
    ensures
        ({
            let used = key == "slot-id"@ || key == "object"@ || key == "id"@ || key
                == "pin-value"@ || key == "init"@ || key == "so-pin"@ || key == "algorithm"@;
            let ignored = key == "token"@ || key == "manufacturer"@ || key == "model"@ || key
                == "library-version"@ || key == "library-manufacturer"@ || key
                == "library-description"@ || key == "serial"@ || key == "type"@ || key
                == "module-path"@ || key == "module-name"@;
            &&& ignored ==> u.with_attr(key, raw) == Ok::<Pkcs11UriView, Seq<char>>(u)
            &&& !used && !ignored ==> u.with_attr(key, raw) == Err::<Pkcs11UriView, Seq<char>>(
                "unsupported pkcs11 attr: "@ + key,
            )
        }),
{
    if is_ignored_key(key) {
        lemma_ignored_keys_are_not_used(key);
    }
}

/// How a piece counts: an empty one says nothing, one without `=` is refused, and
/// any other is taken as its attribute. Pieces count one after the other, up to
/// the first that is refused.
pub proof fn law_pieces_count_in_turn(u: Pkcs11UriView, kv: Seq<char>, kvs: Seq<Seq<char>>)
    ensures
        u.with_segment(Seq::<char>::empty()) == Ok::<Pkcs11UriView, Seq<char>>(u),
        kv.len() > 0 && !kv.contains('=') ==> u.with_segment(kv) == Err::<
            Pkcs11UriView,
            Seq<char>,
        >("bad pkcs11 attr: "@ + kv),
        kv.contains('=') ==> u.with_segment(kv) == u.with_attr(key_of(kv), value_of(kv)),
        u.with_segments(Seq::<Seq<char>>::empty()) == Ok::<Pkcs11UriView, Seq<char>>(u),
        u.with_segments(seq![kv] + kvs) == (match u.with_segment(kv) {
            Ok(v) => v.with_segments(kvs),
            Err(e) => Err(e),
        }),
{
    lemma_one_then(u, kv, kvs);
    lemma_key_end(kv);
    if kv.contains('=') {
        let i = choose|i: int| 0 <= i < kv.len() && kv[i] == '=';
        if key_end(kv) >= kv.len() {
            assert(kv[i] != '=');
        }
    } else if has_key(kv) {
        assert(kv.contains(kv[key_end(kv)]));
    }
}

/// What a URI is: the scheme and pieces that start from nothing. It is refused
/// where a piece is, with that piece's message, and where no slot or neither
/// label nor identifier was set. Anything without the scheme is none.
pub proof fn law_uri_is_scheme_and_pieces(s: Seq<char>, body: Seq<char>)
    ensures
        ({
            let nothing = Pkcs11UriView {
                slot_id: None,
                object: None,
                id: None,
                pin: None,
                init: false,
                so_pin: None,
                algorithm: None,
            };
            let said = nothing.with_segments(segments(body));
            parse_uri("pkcs11:"@ + body) == (match said {
                Ok(u) => if u.slot_id is None {
                    Err::<Pkcs11UriView, Seq<char>>("pkcs11-bridge: URI must include slot-id=N"@)
                } else if u.object is None && u.id is None {
                    Err("pkcs11-bridge: URI must include object= or id="@)
                } else {
                    Ok(u)
                },
                Err(e) => Err(e),
            })
        }),
        !"pkcs11:"@.is_prefix_of(s) ==> parse_uri(s) == Err::<Pkcs11UriView, Seq<char>>(
            "not a pkcs11 URI: "@ + s,
        ),
{
    lemma_scheme(body);
}

/// A piece with this key stands among `kvs`.
spec fn repeats(kvs: Seq<Seq<char>>, key: Seq<char>) -> bool {
    exists|i: int| 0 <= i < kvs.len() && has_key(#[trigger] kvs[i]) && key_of(kvs[i]) == key
}

/// Pieces with other keys leave a field alone.
proof fn lemma_field_stays(u: Pkcs11UriView, kvs: Seq<Seq<char>>)
    requires
        u.with_segments(kvs) is Ok,
    ensures
        !repeats(kvs, "slot-id"@) ==> u.with_segments(kvs)->Ok_0.slot_id == u.slot_id,
        !repeats(kvs, "object"@) ==> u.with_segments(kvs)->Ok_0.object == u.object,
        !repeats(kvs, "id"@) ==> u.with_segments(kvs)->Ok_0.id == u.id,
        !repeats(kvs, "pin-value"@) ==> u.with_segments(kvs)->Ok_0.pin == u.pin,
        !repeats(kvs, "init"@) ==> u.with_segments(kvs)->Ok_0.init == u.init,
        !repeats(kvs, "so-pin"@) ==> u.with_segments(kvs)->Ok_0.so_pin == u.so_pin,
        !repeats(kvs, "algorithm"@) ==> u.with_segments(kvs)->Ok_0.algorithm == u.algorithm,
    decreases kvs.len(),
{
    if kvs.len() > 0 {
        let rest = kvs.drop_first();
        let v = u.with_segment(kvs[0])->Ok_0;
        lemma_field_stays(v, rest);
        assert forall|key: Seq<char>| #[trigger] repeats(rest, key) implies repeats(kvs, key) by {
            let i = choose|i: int|
                0 <= i < rest.len() && has_key(#[trigger] rest[i]) && key_of(rest[i]) == key;
            assert(kvs[i + 1] == rest[i]);
        }
        assert(has_key(kvs[0]) ==> repeats(kvs, key_of(kvs[0])));
    }
}

/// What an accepted URI says of each field: the last attribute with its key
/// decides, wherever in the URI it stands and whatever else stands there, and
/// its value counts in full.
pub proof fn law_last_attribute_decides(
    a: Seq<char>,
    sep1: char,
    key: Seq<char>,
    raw: Seq<char>,
    sep2: char,
    b: Seq<char>,
)
    requires
        sep1 == ';' || sep1 == '?' || sep1 == '&',
        sep2 == ';' || sep2 == '?' || sep2 == '&',
        is_unseparated(key + seq!['='] + raw),
        !key.contains('='),
        forall|i: int|
            0 <= i < segments(b).len() ==> !has_key(#[trigger] segments(b)[i]) || key_of(
                segments(b)[i],
            ) != key,
        parse_uri("pkcs11:"@ + (a.push(sep1) + ((key + seq!['='] + raw).push(sep2) + b))) is Ok,
    ensures
        ({
            let u = parse_uri(
                "pkcs11:"@ + (a.push(sep1) + ((key + seq!['='] + raw).push(sep2) + b)),
            )->Ok_0;
            &&& key == "slot-id"@ ==> u.slot_id is Some && u.slot_id == u64_in(pct_text(raw))
            &&& key == "object"@ ==> u.object == Some(pct_text(raw))
            &&& key == "id"@ ==> u.id == Some(pct_bytes(encode_utf8(raw)))
            &&& key == "pin-value"@ ==> u.pin == Some(pct_text(raw))
            &&& key == "init"@ ==> (u.init <==> pct_text(raw) == "true"@ || pct_text(raw) == "1"@
                || pct_text(raw) == "yes"@ || pct_text(raw) == "auto"@)
            &&& key == "so-pin"@ ==> u.so_pin == Some(pct_text(raw))
            &&& key == "algorithm"@ ==> u.algorithm == Some(pct_text(raw))
        }),
{
    let kv = key + seq!['='] + raw;
    lemma_unseparated(kv);
    lemma_one_in_the_middle(a, sep1, kv, sep2, b);
    law_first_equals_parts_a_piece(key, raw);
    let u = Pkcs11UriView::empty().with_segments(segments(a))->Ok_0;
    let v = u.with_segment(kv)->Ok_0;
    assert(kv.len() > 0);
    law_attributes_set_their_field(u, raw);
    lemma_field_stays(v, segments(b));
    assert(!repeats(segments(b), key));
}

/// What an accepted URI does not say stays unsaid: without an attribute of that
/// key a field is empty, and provisioning is off.
pub proof fn law_unsaid_stays_unsaid(body: Seq<char>, key: Seq<char>)
    requires
        forall|i: int|
            0 <= i < segments(body).len() ==> !has_key(#[trigger] segments(body)[i]) || key_of(
                segments(body)[i],
            ) != key,
        parse_uri("pkcs11:"@ + body) is Ok,
    ensures
        ({
            let u = parse_uri("pkcs11:"@ + body)->Ok_0;
            &&& key == "object"@ ==> u.object is None
            &&& key == "id"@ ==> u.id is None
            &&& key == "pin-value"@ ==> u.pin is None
            &&& key == "init"@ ==> !u.init
            &&& key == "so-pin"@ ==> u.so_pin is None
            &&& key == "algorithm"@ ==> u.algorithm is None
        }),
{
    lemma_scheme(body);
    lemma_field_stays(Pkcs11UriView::empty(), segments(body));
    assert(!repeats(segments(body), key));
}

/// What is said of a parsed URI is said of all its fields, each in full.
pub proof fn law_uris_show_their_fields(u: Pkcs11Uri, text: String, bytes: Vec<u8>)
    ensures
        u@.slot_id == u.slot_id,
        u@.init == u.init,
        u@.object == opt_text(u.object),
        u@.id == opt_bytes(u.id),
        u@.pin == opt_text(u.pin),
        u@.so_pin == opt_text(u.so_pin),
        u@.algorithm == opt_text(u.algorithm),
        opt_text(Some(text)) == Some(text@),
        opt_text(None) is None,
        opt_bytes(Some(bytes)) == Some(bytes@),
        opt_bytes(None) is None,
{
}

} // verus!
