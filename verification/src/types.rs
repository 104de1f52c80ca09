//! The payload model: a closed, discriminated union of account-service
//! webhook events, selected by the `transactionType` field of the wire
//! document, together with its decoder, encoder and human-readable
//! rendering.

use crate::json::append_quoted;
use crate::json::chars_of;
use crate::json::memb_text;
use crate::json::obj_text;
use crate::json::p_doc_fields;
use crate::json::push_char;
use crate::json::pv;
use crate::json::sp_doc_fields;
use crate::json::string_from_chars;
use crate::json::Fields;
use vstd::prelude::*;
use vstd::string::StringExecFns;

verus! {

/// Acknowledgment payload of a health check.
pub struct HealthResponse {
    pub message: String,
}

/// Fields of a sign-in-with-Frequency signup event.
#[derive(Debug, PartialEq)]
pub struct SIWFSignup {
    pub reference_id: String,
    pub account_id: String,
    pub msa_id: String,
    pub handle: String,
    pub provider_id: String,
}

/// Fields of a handle-change event.
#[derive(Debug, PartialEq)]
pub struct HandleChanged {
    pub reference_id: String,
    pub msa_id: String,
    pub handle: String,
    pub provider_id: String,
}

/// Fields of a key-addition event.
#[derive(Debug, PartialEq)]
pub struct KeyAdded {
    pub reference_id: String,
    pub msa_id: String,
    pub new_public_key: String,
}

/// Fields of a handle-creation event.
#[derive(Debug, PartialEq)]
pub struct HandleCreated {
    pub reference_id: String,
    pub msa_id: String,
    pub handle: String,
    pub provider_id: String,
}

/// One inbound webhook event: exactly one of four variants, selected on
/// the wire by the `transactionType` discriminator.
#[derive(Debug, PartialEq)]
pub enum WebhookCallback {
    SIWFSignup(SIWFSignup),
    HandleChange(HandleChanged),
    HandleCreated(HandleCreated),
    KeyAdded(KeyAdded),
}

/// Why a request body failed to decode.
#[derive(Clone, Copy, Debug, PartialEq, Eq, Structural)]
pub enum DecodeError {
    /// The body is not a well-formed JSON object document nested within
    /// the transport's bound.
    MalformedBody,
    /// The discriminator is missing, or its value is not one of the four
    /// known tags.
    UnknownDiscriminator,
    /// A field required by the selected variant is missing or not a string.
    MissingOrInvalidField,
}

/// Mathematical view of [`SIWFSignup`].
pub struct SIWFSignupView {
    pub reference_id: Seq<char>,
    pub account_id: Seq<char>,
    pub msa_id: Seq<char>,
    pub handle: Seq<char>,
    pub provider_id: Seq<char>,
}

/// Mathematical view of [`HandleChanged`].
pub struct HandleChangedView {
    pub reference_id: Seq<char>,
    pub msa_id: Seq<char>,
    pub handle: Seq<char>,
    pub provider_id: Seq<char>,
}

/// Mathematical view of [`KeyAdded`].
pub struct KeyAddedView {
    pub reference_id: Seq<char>,
    pub msa_id: Seq<char>,
    pub new_public_key: Seq<char>,
}

/// Mathematical view of [`HandleCreated`].
pub struct HandleCreatedView {
    pub reference_id: Seq<char>,
    pub msa_id: Seq<char>,
    pub handle: Seq<char>,
    pub provider_id: Seq<char>,
}

/// Mathematical view of [`WebhookCallback`].
pub enum EventView {
    Signup(SIWFSignupView),
    HandleChange(HandleChangedView),
    HandleCreated(HandleCreatedView),
    KeyAdded(KeyAddedView),
}

impl View for SIWFSignup {
    type V = SIWFSignupView;

    open spec fn view(&self) -> SIWFSignupView {
        SIWFSignupView {
            reference_id: self.reference_id@,
            account_id: self.account_id@,
            msa_id: self.msa_id@,
            handle: self.handle@,
            provider_id: self.provider_id@,
        }
    }
}

impl View for HandleChanged {
    type V = HandleChangedView;

    open spec fn view(&self) -> HandleChangedView {
        HandleChangedView {
            reference_id: self.reference_id@,
            msa_id: self.msa_id@,
            handle: self.handle@,
            provider_id: self.provider_id@,
        }
    }
}

impl View for KeyAdded {
    type V = KeyAddedView;

    open spec fn view(&self) -> KeyAddedView {
        KeyAddedView {
            reference_id: self.reference_id@,
            msa_id: self.msa_id@,
            new_public_key: self.new_public_key@,
        }
    }
}

impl View for HandleCreated {
    type V = HandleCreatedView;

    open spec fn view(&self) -> HandleCreatedView {
        HandleCreatedView {
            reference_id: self.reference_id@,
            msa_id: self.msa_id@,
            handle: self.handle@,
            provider_id: self.provider_id@,
        }
    }
}

impl View for WebhookCallback {
    type V = EventView;

    open spec fn view(&self) -> EventView {
        match self {
            WebhookCallback::SIWFSignup(p) => EventView::Signup(p@),
            WebhookCallback::HandleChange(p) => EventView::HandleChange(p@),
            WebhookCallback::HandleCreated(p) => EventView::HandleCreated(p@),
            WebhookCallback::KeyAdded(p) => EventView::KeyAdded(p@),
        }
    }
}

/// Value of the first member with key `k`, if any.
pub open spec fn sp_lookup(ps: Fields, k: Seq<char>) -> Option<Seq<char>>
    decreases ps.len(),
{
    if ps.len() == 0 {
        None
    } else if ps[0].0 == k {
        Some(ps[0].1)
    } else {
        sp_lookup(ps.drop_first(), k)
    }
}

/// The four discriminator tags that decoding accepts, and no others.
pub open spec fn is_known_tag(t: Seq<char>) -> bool {
    t == "SIWF_SIGNUP"@ || t == "CHANGE_HANDLE"@ || t == "CREATE_HANDLE"@ || t == "ADD_KEY"@
}

/// The event denoted by the string members of a decoded document: the
/// discriminator selects the variant, and every field of the selected
/// variant must be present as a string member.  Members with other keys
/// are ignored.
pub open spec fn sp_event_of(ps: Fields) -> Result<EventView, DecodeError> {
    match sp_lookup(ps, "transactionType"@) {
        None => Err(DecodeError::UnknownDiscriminator),
        Some(t) => if t == "SIWF_SIGNUP"@ {
            match (
                sp_lookup(ps, "referenceId"@),
                sp_lookup(ps, "accountId"@),
                sp_lookup(ps, "msaId"@),
                sp_lookup(ps, "handle"@),
                sp_lookup(ps, "providerId"@),
            ) {
                (Some(r), Some(a), Some(m), Some(h), Some(p)) => Ok(
                    EventView::Signup(
                        SIWFSignupView {
                            reference_id: r,
                            account_id: a,
                            msa_id: m,
                            handle: h,
                            provider_id: p,
                        },
                    ),
                ),
                _ => Err(DecodeError::MissingOrInvalidField),
            }
        } else if t == "CHANGE_HANDLE"@ {
            match (
                sp_lookup(ps, "referenceId"@),
                sp_lookup(ps, "msaId"@),
                sp_lookup(ps, "handle"@),
                sp_lookup(ps, "providerId"@),
            ) {
                (Some(r), Some(m), Some(h), Some(p)) => Ok(
                    EventView::HandleChange(
                        HandleChangedView {
                            reference_id: r,
                            msa_id: m,
                            handle: h,
                            provider_id: p,
                        },
                    ),
                ),
                _ => Err(DecodeError::MissingOrInvalidField),
            }
        } else if t == "CREATE_HANDLE"@ {
            match (
                sp_lookup(ps, "referenceId"@),
                sp_lookup(ps, "msaId"@),
                sp_lookup(ps, "handle"@),
                sp_lookup(ps, "providerId"@),
            ) {
                (Some(r), Some(m), Some(h), Some(p)) => Ok(
                    EventView::HandleCreated(
                        HandleCreatedView {
                            reference_id: r,
                            msa_id: m,
                            handle: h,
                            provider_id: p,
                        },
                    ),
                ),
                _ => Err(DecodeError::MissingOrInvalidField),
            }
        } else if t == "ADD_KEY"@ {
            match (
                sp_lookup(ps, "referenceId"@),
                sp_lookup(ps, "msaId"@),
                sp_lookup(ps, "newPublicKey"@),
            ) {
                (Some(r), Some(m), Some(n)) => Ok(
                    EventView::KeyAdded(
                        KeyAddedView { reference_id: r, msa_id: m, new_public_key: n },
                    ),
                ),
                _ => Err(DecodeError::MissingOrInvalidField),
            }
        } else {
            Err(DecodeError::UnknownDiscriminator)
        },
    }
}

/// What decoding a request body returns: the event of the document's
/// string members, or the error that rejects it.
pub open spec fn sp_decode(s: Seq<char>) -> Result<EventView, DecodeError> {
    match sp_doc_fields(s) {
        None => Err(DecodeError::MalformedBody),
        Some(ps) => sp_event_of(ps),
    }
}

/// The wire members of an event, discriminator first, then the variant's
/// fields in schema order.
pub open spec fn sp_pairs(v: EventView) -> Fields {
    match v {
        EventView::Signup(p) => seq![
            ("transactionType"@, "SIWF_SIGNUP"@),
            ("referenceId"@, p.reference_id),
            ("accountId"@, p.account_id),
            ("msaId"@, p.msa_id),
            ("handle"@, p.handle),
            ("providerId"@, p.provider_id),
        ],
        EventView::HandleChange(p) => seq![
            ("transactionType"@, "CHANGE_HANDLE"@),
            ("referenceId"@, p.reference_id),
            ("msaId"@, p.msa_id),
            ("handle"@, p.handle),
            ("providerId"@, p.provider_id),
        ],
        EventView::HandleCreated(p) => seq![
            ("transactionType"@, "CREATE_HANDLE"@),
            ("referenceId"@, p.reference_id),
            ("msaId"@, p.msa_id),
            ("handle"@, p.handle),
            ("providerId"@, p.provider_id),
        ],
        EventView::KeyAdded(p) => seq![
            ("transactionType"@, "ADD_KEY"@),
            ("referenceId"@, p.reference_id),
            ("msaId"@, p.msa_id),
            ("newPublicKey"@, p.new_public_key),
        ],
    }
}

/// The canonical wire text of an event: a JSON object holding the
/// discriminator and the variant's fields, with no whitespace.
pub open spec fn sp_encode(v: EventView) -> Seq<char> {
    obj_text(sp_pairs(v))
}

/// Relates an executable decode result to the specified one: the same
/// variant and fields on success, the same error on failure.
pub open spec fn decode_matches(
    r: Result<WebhookCallback, DecodeError>,
    m: Result<EventView, DecodeError>,
) -> bool {
    match (r, m) {
        (Ok(v), Ok(w)) => v@ == w,
        (Err(e), Err(f)) => e == f,
        _ => false,
    }
}

fn char_vec_eq(a: &Vec<char>, b: &Vec<char>) -> (r: bool)
    ensures
        r == (a@ == b@),
{
    if a.len() != b.len() {
        proof {
            if a@ == b@ {
                assert(a@.len() == b@.len());
            }
        }
        return false;
    }
    let mut i: usize = 0;
    while i < a.len()
        invariant
            a@.len() == b@.len(),
            i <= a@.len(),
            forall|w: int| 0 <= w < i ==> a@[w] == b@[w],
        decreases a@.len() - i,
    {
        if a[i] != b[i] {
            proof {
                if a@ == b@ {
                    assert(a@[i as int] == b@[i as int]);
                }
            }
            return false;
        }
        i = i + 1;
    }
    proof {
        assert(a@ =~= b@);
    }
    true
}

fn find_field(ps: &Vec<(Vec<char>, Vec<char>)>, key: &Vec<char>) -> (r: Option<usize>)
    ensures
        match r {
            Some(ix) => ix < ps@.len() && sp_lookup(pv(ps@), key@) == Some(ps@[ix as int].1@),
            None => sp_lookup(pv(ps@), key@) is None,
        },
{
    let mut i: usize = 0;
    proof {
        assert(pv(ps@).skip(0) =~= pv(ps@));
    }
    while i < ps.len()
        invariant
            i <= ps@.len(),
            sp_lookup(pv(ps@), key@) == sp_lookup(pv(ps@).skip(i as int), key@),
        decreases ps@.len() - i,
    {
        let hit = char_vec_eq(&ps[i].0, key);
        proof {
            assert(pv(ps@).skip(i as int)[0] == pv(ps@)[i as int]);
            assert(pv(ps@).skip(i as int).drop_first() =~= pv(ps@).skip(i + 1 as int));
        }
        if hit {
            return Some(i);
        }
        i = i + 1;
    }
    proof {
        assert(pv(ps@).skip(ps@.len() as int) =~= Seq::<(Seq<char>, Seq<char>)>::empty());
    }
    None
}

fn get_string(ps: &Vec<(Vec<char>, Vec<char>)>, key: &str) -> (r: Option<String>)
    ensures
        match r {
            Some(s) => sp_lookup(pv(ps@), key@) == Some(s@),
            None => sp_lookup(pv(ps@), key@) is None,
        },
{
    let kc = chars_of(key);
    match find_field(ps, &kc) {
        Some(ix) => Some(string_from_chars(&ps[ix].1)),
        None => None,
    }
}

fn event_of_fields(ps: &Vec<(Vec<char>, Vec<char>)>) -> (r: Result<WebhookCallback, DecodeError>)
    ensures
        decode_matches(r, sp_event_of(pv(ps@))),
{
    let tagk = chars_of("transactionType");
    let ti = match find_field(ps, &tagk) {
        Some(ti) => ti,
        None => {
            return Err(DecodeError::UnknownDiscriminator);
        },
    };
    let sig = chars_of("SIWF_SIGNUP");
    if char_vec_eq(&ps[ti].1, &sig) {
        return match (
            get_string(ps, "referenceId"),
            get_string(ps, "accountId"),
            get_string(ps, "msaId"),
            get_string(ps, "handle"),
            get_string(ps, "providerId"),
        ) {
            (Some(r0), Some(a0), Some(m0), Some(h0), Some(p0)) => Ok(
                WebhookCallback::SIWFSignup(
                    SIWFSignup {
                        reference_id: r0,
                        account_id: a0,
                        msa_id: m0,
                        handle: h0,
                        provider_id: p0,
                    },
                ),
            ),
            _ => Err(DecodeError::MissingOrInvalidField),
        };
    }
    let chg = chars_of("CHANGE_HANDLE");
    if char_vec_eq(&ps[ti].1, &chg) {
        return match (
            get_string(ps, "referenceId"),
            get_string(ps, "msaId"),
            get_string(ps, "handle"),
            get_string(ps, "providerId"),
        ) {
            (Some(r0), Some(m0), Some(h0), Some(p0)) => Ok(
                WebhookCallback::HandleChange(
                    HandleChanged {
                        reference_id: r0,
                        msa_id: m0,
                        handle: h0,
                        provider_id: p0,
                    },
                ),
            ),
            _ => Err(DecodeError::MissingOrInvalidField),
        };
    }
    let cre = chars_of("CREATE_HANDLE");
    if char_vec_eq(&ps[ti].1, &cre) {
        return match (
            get_string(ps, "referenceId"),
            get_string(ps, "msaId"),
            get_string(ps, "handle"),
            get_string(ps, "providerId"),
        ) {
            (Some(r0), Some(m0), Some(h0), Some(p0)) => Ok(
                WebhookCallback::HandleCreated(
                    HandleCreated {
                        reference_id: r0,
                        msa_id: m0,
                        handle: h0,
                        provider_id: p0,
                    },
                ),
            ),
            _ => Err(DecodeError::MissingOrInvalidField),
        };
    }
    let add = chars_of("ADD_KEY");
    if char_vec_eq(&ps[ti].1, &add) {
        return match (
            get_string(ps, "referenceId"),
            get_string(ps, "msaId"),
            get_string(ps, "newPublicKey"),
        ) {
            (Some(r0), Some(m0), Some(n0)) => Ok(
                WebhookCallback::KeyAdded(
                    KeyAdded { reference_id: r0, msa_id: m0, new_public_key: n0 },
                ),
            ),
            _ => Err(DecodeError::MissingOrInvalidField),
        };
    }
    Err(DecodeError::UnknownDiscriminator)
}

/// Append one serialised `"key":"value"` member to `out`.
fn append_memb(out: &mut Vec<char>, k: &str, v: &str)
    ensures
        final(out)@ == old(out)@ + memb_text(k@, v@),
{
    let kc = chars_of(k);
    append_quoted(out, &kc);
    out.push(':');
    let vc = chars_of(v);
    append_quoted(out, &vc);
    proof {
        assert(out@ =~= old(out)@ + memb_text(k@, v@));
    }
}

impl WebhookCallback {
    /// Decode one request body.  Returns the event exactly when the body is
    /// a well-formed JSON object, nested within the transport's bound,
    /// whose `transactionType` member carries one of the four known tags
    /// and whose selected variant has every field present as a string;
    /// otherwise returns the error that says which of those conditions
    /// failed first.
    pub fn decode(s: &str) -> (r: Result<WebhookCallback, DecodeError>)
        ensures
            decode_matches(r, sp_decode(s@)),
    {
        let cs = chars_of(s);
        match p_doc_fields(&cs) {
            None => Err(DecodeError::MalformedBody),
            Some(ps) => event_of_fields(&ps),
        }
    }

    /// Serialise the event into its canonical wire text: the discriminator
    /// first, then the variant's fields in schema order, with no
    /// whitespace.
    pub fn encode(&self) -> (r: String)
        ensures
            r@ == sp_encode(self@),
    {
        let out = match self {
            WebhookCallback::SIWFSignup(p) => encode_signup(p),
            WebhookCallback::HandleChange(p) => encode_handle_change(p),
            WebhookCallback::HandleCreated(p) => encode_handle_created(p),
            WebhookCallback::KeyAdded(p) => encode_key_added(p),
        };
        string_from_chars(&out)
    }

    /// Render the event for the log.  The signup variant produces one line
    /// per field, in schema order, each prefixed by the field's name; the
    /// other variants produce a one-line field dump.
    pub fn render(&self) -> (r: String)
        ensures
            r@ == sp_render(self@),
    {
        match self {
            WebhookCallback::SIWFSignup(p) => {
                let mut out = String::from_str("\nreference_id: ");
                out.append(p.reference_id.as_str());
                out.append("\naccount_id: ");
                out.append(p.account_id.as_str());
                out.append("\nmsa_id: ");
                out.append(p.msa_id.as_str());
                out.append("\nhandle: ");
                out.append(p.handle.as_str());
                out.append("\nprovider_id: ");
                out.append(p.provider_id.as_str());
                out.append("\n");
                out
            },
            WebhookCallback::HandleChange(p) => {
                let mut out = String::from_str("HandleChange: HandleChanged { reference_id: \"");
                out.append(p.reference_id.as_str());
                out.append("\", msa_id: \"");
                out.append(p.msa_id.as_str());
                out.append("\", handle: \"");
                out.append(p.handle.as_str());
                out.append("\", provider_id: \"");
                out.append(p.provider_id.as_str());
                out.append("\" }");
                out
            },
            WebhookCallback::HandleCreated(p) => {
                let mut out = String::from_str("HandleCreated: HandleCreated { reference_id: \"");
                out.append(p.reference_id.as_str());
                out.append("\", msa_id: \"");
                out.append(p.msa_id.as_str());
                out.append("\", handle: \"");
                out.append(p.handle.as_str());
                out.append("\", provider_id: \"");
                out.append(p.provider_id.as_str());
                out.append("\" }");
                out
            },
            WebhookCallback::KeyAdded(p) => {
                let mut out = String::from_str("KeyAdded: KeyAdded { reference_id: \"");
                out.append(p.reference_id.as_str());
                out.append("\", msa_id: \"");
                out.append(p.msa_id.as_str());
                out.append("\", new_public_key: \"");
                out.append(p.new_public_key.as_str());
                out.append("\" }");
                out
            },
        }
    }
}

/// The human-readable rendering of an event, as the handler logs it: the
/// signup variant is rendered one field per line, each line prefixed by
/// the field's name; the other variants are rendered as a one-line field
/// dump under the variant's name.
pub open spec fn sp_render(v: EventView) -> Seq<char> {
    match v {
        EventView::Signup(p) => "\nreference_id: "@ + p.reference_id + "\naccount_id: "@
            + p.account_id + "\nmsa_id: "@ + p.msa_id + "\nhandle: "@ + p.handle
            + "\nprovider_id: "@ + p.provider_id + "\n"@,
        EventView::HandleChange(p) => "HandleChange: HandleChanged { reference_id: \""@
            + p.reference_id + "\", msa_id: \""@ + p.msa_id + "\", handle: \""@ + p.handle
            + "\", provider_id: \""@ + p.provider_id + "\" }"@,
        EventView::HandleCreated(p) => "HandleCreated: HandleCreated { reference_id: \""@
            + p.reference_id + "\", msa_id: \""@ + p.msa_id + "\", handle: \""@ + p.handle
            + "\", provider_id: \""@ + p.provider_id + "\" }"@,
        EventView::KeyAdded(p) => "KeyAdded: KeyAdded { reference_id: \""@ + p.reference_id
            + "\", msa_id: \""@ + p.msa_id + "\", new_public_key: \""@ + p.new_public_key
            + "\" }"@,
    }
}

/// The structural description of the wire schema, for an external
/// documentation renderer: the discriminator's field name and, for each
/// tag, the wire names of the variant's fields.
pub open spec fn sp_describe() -> Seq<char> {
    "{\"discriminator\":\"transactionType\",\"variants\":{\"SIWF_SIGNUP\":[\"referenceId\",\"accountId\",\"msaId\",\"handle\",\"providerId\"],\"CHANGE_HANDLE\":[\"referenceId\",\"msaId\",\"handle\",\"providerId\"],\"CREATE_HANDLE\":[\"referenceId\",\"msaId\",\"handle\",\"providerId\"],\"ADD_KEY\":[\"referenceId\",\"msaId\",\"newPublicKey\"]}}"@
}

/// Produce the schema description document.
pub fn describe() -> (r: String)
    ensures
        r@ == sp_describe(),
{
    String::from_str(
        "{\"discriminator\":\"transactionType\",\"variants\":{\"SIWF_SIGNUP\":[\"referenceId\",\"accountId\",\"msaId\",\"handle\",\"providerId\"],\"CHANGE_HANDLE\":[\"referenceId\",\"msaId\",\"handle\",\"providerId\"],\"CREATE_HANDLE\":[\"referenceId\",\"msaId\",\"handle\",\"providerId\"],\"ADD_KEY\":[\"referenceId\",\"msaId\",\"newPublicKey\"]}}",
    )
}

fn encode_signup(p: &SIWFSignup) -> (out: Vec<char>)
    ensures
        out@ == sp_encode(EventView::Signup(p@)),
{
    let mut out: Vec<char> = Vec::new();
    push_char(&mut out, '{');
    proof {
        assert(Seq::<char>::empty() + seq!['{'] =~= seq!['{']);
    }
    append_memb(&mut out, "transactionType", "SIWF_SIGNUP");
    push_char(&mut out, ',');
    append_memb(&mut out, "referenceId", p.reference_id.as_str());
    push_char(&mut out, ',');
    append_memb(&mut out, "accountId", p.account_id.as_str());
    push_char(&mut out, ',');
    append_memb(&mut out, "msaId", p.msa_id.as_str());
    push_char(&mut out, ',');
    append_memb(&mut out, "handle", p.handle.as_str());
    push_char(&mut out, ',');
    append_memb(&mut out, "providerId", p.provider_id.as_str());
    push_char(&mut out, '}');
    proof {
        crate::json::lemma_obj_text_flat6(sp_pairs(EventView::Signup(p@)));
        assert(out@ == sp_encode(EventView::Signup(p@)));
    }
    out
}

fn encode_handle_change(p: &HandleChanged) -> (out: Vec<char>)
    ensures
        out@ == sp_encode(EventView::HandleChange(p@)),
{
    let mut out: Vec<char> = Vec::new();
    push_char(&mut out, '{');
    proof {
        assert(Seq::<char>::empty() + seq!['{'] =~= seq!['{']);
    }
    append_memb(&mut out, "transactionType", "CHANGE_HANDLE");
    push_char(&mut out, ',');
    append_memb(&mut out, "referenceId", p.reference_id.as_str());
    push_char(&mut out, ',');
    append_memb(&mut out, "msaId", p.msa_id.as_str());
    push_char(&mut out, ',');
    append_memb(&mut out, "handle", p.handle.as_str());
    push_char(&mut out, ',');
    append_memb(&mut out, "providerId", p.provider_id.as_str());
    push_char(&mut out, '}');
    proof {
        crate::json::lemma_obj_text_flat5(sp_pairs(EventView::HandleChange(p@)));
        assert(out@ == sp_encode(EventView::HandleChange(p@)));
    }
    out
}

fn encode_handle_created(p: &HandleCreated) -> (out: Vec<char>)
    ensures
        out@ == sp_encode(EventView::HandleCreated(p@)),
{
    let mut out: Vec<char> = Vec::new();
    push_char(&mut out, '{');
    proof {
        assert(Seq::<char>::empty() + seq!['{'] =~= seq!['{']);
    }
    append_memb(&mut out, "transactionType", "CREATE_HANDLE");
    push_char(&mut out, ',');
    append_memb(&mut out, "referenceId", p.reference_id.as_str());
    push_char(&mut out, ',');
    append_memb(&mut out, "msaId", p.msa_id.as_str());
    push_char(&mut out, ',');
    append_memb(&mut out, "handle", p.handle.as_str());
    push_char(&mut out, ',');
    append_memb(&mut out, "providerId", p.provider_id.as_str());
    push_char(&mut out, '}');
    proof {
        crate::json::lemma_obj_text_flat5(sp_pairs(EventView::HandleCreated(p@)));
        assert(out@ == sp_encode(EventView::HandleCreated(p@)));
    }
    out
}

fn encode_key_added(p: &KeyAdded) -> (out: Vec<char>)
    ensures
        out@ == sp_encode(EventView::KeyAdded(p@)),
{
    let mut out: Vec<char> = Vec::new();
    push_char(&mut out, '{');
    proof {
        assert(Seq::<char>::empty() + seq!['{'] =~= seq!['{']);
    }
    append_memb(&mut out, "transactionType", "ADD_KEY");
    push_char(&mut out, ',');
    append_memb(&mut out, "referenceId", p.reference_id.as_str());
    push_char(&mut out, ',');
    append_memb(&mut out, "msaId", p.msa_id.as_str());
    push_char(&mut out, ',');
    append_memb(&mut out, "newPublicKey", p.new_public_key.as_str());
    push_char(&mut out, '}');
    proof {
        crate::json::lemma_obj_text_flat4(sp_pairs(EventView::KeyAdded(p@)));
        assert(out@ == sp_encode(EventView::KeyAdded(p@)));
    }
    out
}

/// The wire names that decoding reads: the discriminator and the field
/// names of the four variants.
pub open spec fn is_schema_key(k: Seq<char>) -> bool {
    k == "transactionType"@ || k == "referenceId"@ || k == "accountId"@ || k == "msaId"@ || k
        == "handle"@ || k == "providerId"@ || k == "newPublicKey"@
}

/// The wire names of the fields that the tag `t` requires, in schema
/// order; empty for an unknown tag.
pub open spec fn required_keys(t: Seq<char>) -> Seq<Seq<char>> {
    if t == "SIWF_SIGNUP"@ {
        seq!["referenceId"@, "accountId"@, "msaId"@, "handle"@, "providerId"@]
    } else if t == "CHANGE_HANDLE"@ || t == "CREATE_HANDLE"@ {
        seq!["referenceId"@, "msaId"@, "handle"@, "providerId"@]
    } else if t == "ADD_KEY"@ {
        seq!["referenceId"@, "msaId"@, "newPublicKey"@]
    } else {
        Seq::empty()
    }
}

proof fn lemma_lookup_push_other(ps: Fields, p: (Seq<char>, Seq<char>), k: Seq<char>)
    requires
        p.0 != k,
    ensures
        sp_lookup(ps.push(p), k) == sp_lookup(ps, k),
    decreases ps.len(),
{
    if ps.len() == 0 {
        assert(ps.push(p)[0] == p);
        assert(ps.push(p).drop_first() =~= Seq::<(Seq<char>, Seq<char>)>::empty());
    } else {
        assert(ps.push(p)[0] == ps[0]);
        assert(ps.push(p).drop_first() =~= ps.drop_first().push(p));
        lemma_lookup_push_other(ps.drop_first(), p, k);
    }
}

proof fn lemma_lookup_at(ps: Fields, k: Seq<char>, ix: int)
    requires
        0 <= ix < ps.len(),
        ps[ix].0 == k,
        forall|w: int| 0 <= w < ix ==> ps[w].0 != k,
    ensures
        sp_lookup(ps, k) == Some(ps[ix].1),
    decreases ix,
{
    if ix > 0 {
        assert(forall|w: int| 0 <= w < ix - 1 ==> ps.drop_first()[w].0 != k);
        lemma_lookup_at(ps.drop_first(), k, ix - 1);
    }
}

/// Decoding the members that the canonical encoding of `v` carries gives
/// back exactly `v`.
#[verifier::rlimit(100)]
proof fn lemma_event_of_pairs(v: EventView)
    ensures
        sp_event_of(sp_pairs(v)) == Ok::<EventView, DecodeError>(v),
{
    reveal_strlit("transactionType");
    reveal_strlit("referenceId");
    reveal_strlit("accountId");
    reveal_strlit("msaId");
    reveal_strlit("handle");
    reveal_strlit("providerId");
    reveal_strlit("newPublicKey");
    reveal_strlit("SIWF_SIGNUP");
    reveal_strlit("CHANGE_HANDLE");
    reveal_strlit("CREATE_HANDLE");
    reveal_strlit("ADD_KEY");
    assert("transactionType"@.len() == 15);
    assert("referenceId"@.len() == 11);
    assert("accountId"@.len() == 9);
    assert("msaId"@.len() == 5);
    assert("handle"@.len() == 6);
    assert("providerId"@.len() == 10);
    assert("newPublicKey"@.len() == 12);
    assert("SIWF_SIGNUP"@.len() == 11);
    assert("CHANGE_HANDLE"@.len() == 13);
    assert("CREATE_HANDLE"@.len() == 13);
    assert("ADD_KEY"@.len() == 7);
    assert("CHANGE_HANDLE"@[1] == 'H' && "CREATE_HANDLE"@[1] == 'R');
    let ps = sp_pairs(v);
    lemma_lookup_at(ps, "transactionType"@, 0);
    match v {
        EventView::Signup(p) => {
            assert forall|w: int| 0 <= w < 1 implies ps[w].0 != "referenceId"@ by {
                assert(ps[0].0 != "referenceId"@);
            }
            lemma_lookup_at(ps, "referenceId"@, 1);
            assert forall|w: int| 0 <= w < 2 implies ps[w].0 != "accountId"@ by {
                assert(ps[0].0 != "accountId"@);
                assert(ps[1].0 != "accountId"@);
            }
            lemma_lookup_at(ps, "accountId"@, 2);
            assert forall|w: int| 0 <= w < 3 implies ps[w].0 != "msaId"@ by {
                assert(ps[0].0 != "msaId"@);
                assert(ps[1].0 != "msaId"@);
                assert(ps[2].0 != "msaId"@);
            }
            lemma_lookup_at(ps, "msaId"@, 3);
            assert forall|w: int| 0 <= w < 4 implies ps[w].0 != "handle"@ by {
                assert(ps[0].0 != "handle"@);
                assert(ps[1].0 != "handle"@);
                assert(ps[2].0 != "handle"@);
                assert(ps[3].0 != "handle"@);
            }
            lemma_lookup_at(ps, "handle"@, 4);
            assert forall|w: int| 0 <= w < 5 implies ps[w].0 != "providerId"@ by {
                assert(ps[0].0 != "providerId"@);
                assert(ps[1].0 != "providerId"@);
                assert(ps[2].0 != "providerId"@);
                assert(ps[3].0 != "providerId"@);
                assert(ps[4].0 != "providerId"@);
            }
            lemma_lookup_at(ps, "providerId"@, 5);
            assert(sp_event_of(ps) == Ok::<EventView, DecodeError>(v));
        },
        EventView::HandleChange(p) => {
            assert forall|w: int| 0 <= w < 1 implies ps[w].0 != "referenceId"@ by {
                assert(ps[0].0 != "referenceId"@);
            }
            lemma_lookup_at(ps, "referenceId"@, 1);
            assert forall|w: int| 0 <= w < 2 implies ps[w].0 != "msaId"@ by {
                assert(ps[0].0 != "msaId"@);
                assert(ps[1].0 != "msaId"@);
            }
            lemma_lookup_at(ps, "msaId"@, 2);
            assert forall|w: int| 0 <= w < 3 implies ps[w].0 != "handle"@ by {
                assert(ps[0].0 != "handle"@);
                assert(ps[1].0 != "handle"@);
                assert(ps[2].0 != "handle"@);
            }
            lemma_lookup_at(ps, "handle"@, 3);
            assert forall|w: int| 0 <= w < 4 implies ps[w].0 != "providerId"@ by {
                assert(ps[0].0 != "providerId"@);
                assert(ps[1].0 != "providerId"@);
                assert(ps[2].0 != "providerId"@);
                assert(ps[3].0 != "providerId"@);
            }
            lemma_lookup_at(ps, "providerId"@, 4);
            assert(sp_event_of(ps) == Ok::<EventView, DecodeError>(v));
        },
        EventView::HandleCreated(p) => {
            assert forall|w: int| 0 <= w < 1 implies ps[w].0 != "referenceId"@ by {
                assert(ps[0].0 != "referenceId"@);
            }
            lemma_lookup_at(ps, "referenceId"@, 1);
            assert forall|w: int| 0 <= w < 2 implies ps[w].0 != "msaId"@ by {
                assert(ps[0].0 != "msaId"@);
                assert(ps[1].0 != "msaId"@);
            }
            lemma_lookup_at(ps, "msaId"@, 2);
            assert forall|w: int| 0 <= w < 3 implies ps[w].0 != "handle"@ by {
                assert(ps[0].0 != "handle"@);
                assert(ps[1].0 != "handle"@);
                assert(ps[2].0 != "handle"@);
            }
            lemma_lookup_at(ps, "handle"@, 3);
            assert forall|w: int| 0 <= w < 4 implies ps[w].0 != "providerId"@ by {
                assert(ps[0].0 != "providerId"@);
                assert(ps[1].0 != "providerId"@);
                assert(ps[2].0 != "providerId"@);
                assert(ps[3].0 != "providerId"@);
            }
            lemma_lookup_at(ps, "providerId"@, 4);
            assert(sp_event_of(ps) == Ok::<EventView, DecodeError>(v));
        },
        EventView::KeyAdded(p) => {
            assert forall|w: int| 0 <= w < 1 implies ps[w].0 != "referenceId"@ by {
                assert(ps[0].0 != "referenceId"@);
            }
            lemma_lookup_at(ps, "referenceId"@, 1);
            assert forall|w: int| 0 <= w < 2 implies ps[w].0 != "msaId"@ by {
                assert(ps[0].0 != "msaId"@);
                assert(ps[1].0 != "msaId"@);
            }
            lemma_lookup_at(ps, "msaId"@, 2);
            assert forall|w: int| 0 <= w < 3 implies ps[w].0 != "newPublicKey"@ by {
                assert(ps[0].0 != "newPublicKey"@);
                assert(ps[1].0 != "newPublicKey"@);
                assert(ps[2].0 != "newPublicKey"@);
            }
            lemma_lookup_at(ps, "newPublicKey"@, 3);
            assert(sp_event_of(ps) == Ok::<EventView, DecodeError>(v));
        },
    }
}

/// Round trip: decoding the canonical encoding of any constructible event
/// yields exactly that event.
#[verifier::spinoff_prover]
#[verifier::rlimit(100)]
pub proof fn lemma_round_trip(v: EventView)
    ensures
        sp_decode(sp_encode(v)) == Ok::<EventView, DecodeError>(v),
{
    crate::json::lemma_parse_canonical_doc(sp_encode(v), sp_pairs(v));
    lemma_event_of_pairs(v);
}

/// Discriminator exhaustiveness: a document decodes to an event only
/// under one of the four known tags; a present but unknown tag, or an
/// absent discriminator, is rejected as `UnknownDiscriminator`.
pub proof fn lemma_discriminator_exhaustive(ps: Fields)
    ensures
        sp_event_of(ps) is Ok ==> (sp_lookup(ps, "transactionType"@) matches Some(t)
            && is_known_tag(t)),
        (sp_lookup(ps, "transactionType"@) matches Some(t) && !is_known_tag(t)) ==> sp_event_of(ps)
            == Err::<EventView, DecodeError>(DecodeError::UnknownDiscriminator),
        sp_lookup(ps, "transactionType"@) is None ==> sp_event_of(ps) == Err::<
            EventView,
            DecodeError,
        >(DecodeError::UnknownDiscriminator),
{
}

/// Discriminator exhaustiveness at the document level: a well-formed
/// document decodes to an event only under one of the four known tags,
/// and is rejected as `UnknownDiscriminator` under any other tag.
pub proof fn lemma_decode_tag_exhaustive(s: Seq<char>)
    ensures
        sp_decode(s) is Ok ==> (sp_doc_fields(s) matches Some(ps) && sp_lookup(
            ps,
            "transactionType"@,
        ) matches Some(t) && is_known_tag(t)),
        (sp_doc_fields(s) matches Some(ps) && sp_lookup(ps, "transactionType"@) matches Some(t)
            && !is_known_tag(t)) ==> sp_decode(s) == Err::<EventView, DecodeError>(
            DecodeError::UnknownDiscriminator,
        ),
{
    if let Some(ps) = sp_doc_fields(s) {
        lemma_discriminator_exhaustive(ps);
    }
}

/// Field strictness, rejecting half: under a known tag, if any one
/// required field has no string member, the document is rejected as
/// `MissingOrInvalidField`.
pub proof fn lemma_missing_field_rejected(ps: Fields, t: Seq<char>, ix: int)
    requires
        sp_lookup(ps, "transactionType"@) == Some(t),
        is_known_tag(t),
        0 <= ix < required_keys(t).len(),
        sp_lookup(ps, required_keys(t)[ix]) is None,
    ensures
        sp_event_of(ps) == Err::<EventView, DecodeError>(DecodeError::MissingOrInvalidField),
{
}

/// Field strictness, accepting half: under a known tag, if every required
/// field is present as a string member, the document decodes to an event.
pub proof fn lemma_required_fields_accepted(ps: Fields, t: Seq<char>)
    requires
        sp_lookup(ps, "transactionType"@) == Some(t),
        is_known_tag(t),
        forall|ix: int|
            0 <= ix < required_keys(t).len() ==> sp_lookup(ps, #[trigger] required_keys(t)[ix])
                is Some,
    ensures
        sp_event_of(ps) is Ok,
{
    let rk = required_keys(t);
    if t == "SIWF_SIGNUP"@ {
        assert(sp_lookup(ps, rk[0]) is Some);
        assert(sp_lookup(ps, rk[1]) is Some);
        assert(sp_lookup(ps, rk[2]) is Some);
        assert(sp_lookup(ps, rk[3]) is Some);
        assert(sp_lookup(ps, rk[4]) is Some);
    } else if t == "CHANGE_HANDLE"@ || t == "CREATE_HANDLE"@ {
        assert(sp_lookup(ps, rk[0]) is Some);
        assert(sp_lookup(ps, rk[1]) is Some);
        assert(sp_lookup(ps, rk[2]) is Some);
        assert(sp_lookup(ps, rk[3]) is Some);
    } else {
        assert(sp_lookup(ps, rk[0]) is Some);
        assert(sp_lookup(ps, rk[1]) is Some);
        assert(sp_lookup(ps, rk[2]) is Some);
    }
}

/// Field permissiveness: a member under a key that the schema does not
/// read never changes what a document decodes to.
pub proof fn lemma_extra_field_ignored(ps: Fields, extra: (Seq<char>, Seq<char>))
    requires
        !is_schema_key(extra.0),
    ensures
        sp_event_of(ps.push(extra)) == sp_event_of(ps),
{
    lemma_lookup_push_other(ps, extra, "transactionType"@);
    lemma_lookup_push_other(ps, extra, "referenceId"@);
    lemma_lookup_push_other(ps, extra, "accountId"@);
    lemma_lookup_push_other(ps, extra, "msaId"@);
    lemma_lookup_push_other(ps, extra, "handle"@);
    lemma_lookup_push_other(ps, extra, "providerId"@);
    lemma_lookup_push_other(ps, extra, "newPublicKey"@);
}

} // verus!
