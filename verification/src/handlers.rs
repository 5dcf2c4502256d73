//! The ingestion/serving pipeline: multipart parts are folded into a
//! `File`, the name/extension policy is applied, and the outcome is a single
//! decision — reject with a classified error, or store one object under one
//! derived key. The read path resolves a content type for a fetched object.
//!
//! The object-store collaborator itself is external: callers perform the one
//! write or read this module decides on, and hand the outcome back.

use vstd::prelude::*;

use crate::util::{
    determine_content_type, ext_after_last_dot, find_last_dot, is_image_ext, last_dot_index,
    lemma_last_dot_index, spec_content_type, spec_ext_with_sep, spec_is_image_ext,
    stem_before_last_dot, str_eq, AuthError, Claims, File, FileView, Role,
};
use vstd::string::StrSliceExecFns;
use vstd::string::StringExecFns;

verus! {

/// The fixed bucket all uploads of this service land in.
pub const BUCKET_NAME: &'static str = "products";

// ---------------------------------------------------------------------------
// Multipart parts
// ---------------------------------------------------------------------------

/// One decoded part of a multipart request body: a named text field or a
/// named binary field.
#[derive(Clone, Debug)]
pub enum Part {
    Text { name: String, value: String },
    Binary { name: String, data: Vec<u8> },
}

/// Mathematical content of a `Part`.
pub enum PartView {
    Text { name: Seq<char>, value: Seq<char> },
    Binary { name: Seq<char>, data: Seq<u8> },
}

impl View for Part {
    type V = PartView;

    open spec fn view(&self) -> PartView {
        match self {
            Part::Text { name, value } => PartView::Text { name: name@, value: value@ },
            Part::Binary { name, data } => PartView::Binary { name: name@, data: data@ },
        }
    }
}

pub open spec fn views_of_parts(parts: Seq<Part>) -> Seq<PartView> {
    parts.map_values(|p: Part| p@)
}

// ---------------------------------------------------------------------------
// Folding parts into a file
// ---------------------------------------------------------------------------

/// What one part does to the accumulator: a `product_id` text field sets the
/// stored name and the extension by splitting on the last dot; a `file`
/// binary field appends its bytes to the payload; anything else is ignored.
pub open spec fn spec_apply_part(f: FileView, p: PartView) -> FileView {
    match p {
        PartView::Text { name, value } => if name == "product_id"@ {
            FileView {
                file_name: stem_before_last_dot(value),
                ext: spec_ext_with_sep(value),
                bytes: f.bytes,
            }
        } else {
            f
        },
        PartView::Binary { name, data } => if name == "file"@ {
            FileView { file_name: f.file_name, ext: f.ext, bytes: f.bytes + data }
        } else {
            f
        },
    }
}

pub open spec fn spec_empty_file() -> FileView {
    FileView { file_name: Seq::empty(), ext: Seq::empty(), bytes: Seq::empty() }
}

/// The accumulator state after consuming a whole part stream in arrival
/// order, starting from the empty file.
pub open spec fn spec_accumulate(parts: Seq<PartView>) -> FileView
    decreases parts.len(),
{
    if parts.len() == 0 {
        spec_empty_file()
    } else {
        spec_apply_part(spec_accumulate(parts.drop_last()), parts.last())
    }
}

/// Applies one decoded part to the accumulator.
pub fn apply_part(file: &mut File, part: &Part)
    ensures
        final(file)@ == spec_apply_part(old(file)@, part@),
{
    match part {
        Part::Text { name, value } => {
            if str_eq(name.as_str(), "product_id") {
                match find_last_dot(value.as_str()) {
                    None => {
                        file.file_name(value.clone());
                        file.ext(String::new());
                    },
                    Some(i) => {
                        proof {
                            lemma_last_dot_index(value@);
                        }
                        let n = value.as_str().unicode_len();
                        let before = value.as_str().substring_char(0, i);
                        let after = value.as_str().substring_char(i + 1, n);
                        file.file_name(before.to_owned());
                        let mut e: String = ".".to_owned();
                        e.append(after);
                        proof {
                            reveal_strlit(".");
                            assert("."@ =~= seq!['.']);
                        }
                        file.ext(e);
                    },
                }
            }
        },
        Part::Binary { name, data } => {
            if str_eq(name.as_str(), "file") {
                file.bytes(data.as_slice());
            }
        },
    }
}

// ---------------------------------------------------------------------------
// Key safety and the upload policy
// ---------------------------------------------------------------------------

/// Characters that must not appear in an object key: path separators and
/// control characters.
pub open spec fn spec_key_char_bad(c: char) -> bool {
    c == '/' || c == '\\' || (c as u32) < 32 || (c as u32) == 127
}

/// An object key is safe when it carries no separator, no control character
/// and no ".." sequence, so it can never traverse paths.
pub open spec fn spec_key_safe(k: Seq<char>) -> bool {
    &&& forall|i: int| 0 <= i < k.len() ==> !spec_key_char_bad(#[trigger] k[i])
    &&& forall|i: int| 0 <= i < k.len() - 1 ==> !(#[trigger] k[i] == '.' && k[i + 1] == '.')
}

/// Checks key safety character by character.
pub fn key_is_safe(k: &str) -> (r: bool)
    ensures
        r == spec_key_safe(k@),
{
    let n = k.unicode_len();
    let mut i: usize = 0;
    let mut prev_dot = false;
    while i < n
        invariant
            n == k@.len(),
            i <= n,
            forall|j: int| 0 <= j < i ==> !spec_key_char_bad(#[trigger] k@[j]),
            forall|j: int| 0 <= j < i - 1 ==> !(#[trigger] k@[j] == '.' && k@[j + 1] == '.'),
            prev_dot == (i > 0 && k@[i - 1] == '.'),
        decreases n - i,
    {
        let c = k.get_char(i);
        if c == '/' || c == '\\' || (c as u32) < 32 || (c as u32) == 127 {
            assert(spec_key_char_bad(k@[i as int]));
            return false;
        }
        if prev_dot && c == '.' {
            assert(k@[i - 1] == '.' && k@[i as int] == '.');
            return false;
        }
        prev_dot = c == '.';
        i = i + 1;
    }
    true
}

/// The one policy switch left open by the design: whether uploaded
/// extensions are held to the image allow-list or accepted unrestricted.
#[derive(Clone, Copy, PartialEq, Eq, Structural, Debug)]
pub struct UploadPolicy {
    pub restrict_extensions: bool,
}

/// What a finished accumulator must satisfy for the upload to proceed:
/// name, extension and payload all non-empty, a safe derived key, and —
/// when the policy restricts — an allow-listed extension.
pub open spec fn spec_upload_valid(f: FileView, restrict_extensions: bool) -> bool {
    &&& f.is_complete()
    &&& spec_key_safe(f.file_name + f.ext)
    &&& restrict_extensions ==> spec_is_image_ext(f.ext)
}

// ---------------------------------------------------------------------------
// Error taxonomy
// ---------------------------------------------------------------------------

/// Classified failures of the pipeline. Every failure is detected at its
/// point of origin and returned at once; none is retried.
#[derive(Clone, Copy, PartialEq, Eq, Structural, Debug)]
pub enum GatewayError {
    AuthInvalid,
    Forbidden,
    DecodeFailure,
    ValidationFailure,
    BackendFailure,
    NotFound,
}

impl GatewayError {
    pub open spec fn spec_status_code(self) -> u16 {
        match self {
            GatewayError::AuthInvalid => 400,
            GatewayError::Forbidden => 403,
            GatewayError::DecodeFailure => 400,
            GatewayError::ValidationFailure => 400,
            GatewayError::BackendFailure => 500,
            GatewayError::NotFound => 404,
        }
    }

    pub fn status_code(&self) -> (s: u16)
        ensures
            s == self.spec_status_code(),
    {
        match self {
            GatewayError::AuthInvalid => 400,
            GatewayError::Forbidden => 403,
            GatewayError::DecodeFailure => 400,
            GatewayError::ValidationFailure => 400,
            GatewayError::BackendFailure => 500,
            GatewayError::NotFound => 404,
        }
    }

    pub open spec fn spec_message(self) -> Seq<char> {
        match self {
            GatewayError::AuthInvalid => "Invalid token"@,
            GatewayError::Forbidden => "forbidden"@,
            GatewayError::DecodeFailure => "malformed multipart body"@,
            GatewayError::ValidationFailure => "upload needs an id plus an image extension (ex: ce8fa930-fe2d-4ad1-9966-8eb3c3826444.jpeg) and a non-empty payload"@,
            GatewayError::BackendFailure => "object store error"@,
            GatewayError::NotFound => "image not found"@,
        }
    }

    /// The human-readable text served with the failure.
    pub fn message(&self) -> (m: String)
        ensures
            m@ == self.spec_message(),
    {
        match self {
            GatewayError::AuthInvalid => "Invalid token".to_owned(),
            GatewayError::Forbidden => "forbidden".to_owned(),
            GatewayError::DecodeFailure => "malformed multipart body".to_owned(),
            GatewayError::ValidationFailure => "upload needs an id plus an image extension (ex: ce8fa930-fe2d-4ad1-9966-8eb3c3826444.jpeg) and a non-empty payload".to_owned(),
            GatewayError::BackendFailure => "object store error".to_owned(),
            GatewayError::NotFound => "image not found".to_owned(),
        }
    }
}

// ---------------------------------------------------------------------------
// The upload decision
// ---------------------------------------------------------------------------

/// Outcome of the upload pipeline before the store is touched: either a
/// classified rejection, or the single write to perform.
#[derive(Clone, Debug)]
pub enum UploadDecision {
    Reject { error: GatewayError },
    Store { key: String, payload: Vec<u8> },
}

/// Mathematical content of an `UploadDecision`.
#[verifier::ext_equal]
pub enum UploadDecisionView {
    Reject { error: GatewayError },
    Store { key: Seq<char>, payload: Seq<u8> },
}

impl View for UploadDecision {
    type V = UploadDecisionView;

    open spec fn view(&self) -> UploadDecisionView {
        match self {
            UploadDecision::Reject { error } => UploadDecisionView::Reject { error: *error },
            UploadDecision::Store { key, payload } => UploadDecisionView::Store {
                key: key@,
                payload: payload@,
            },
        }
    }
}

/// The whole upload pipeline as one function of its inputs: the
/// authorization gate first, then the decoded part stream, then the
/// name/extension policy; when everything holds, the decision is to store
/// the accumulated payload under `name + extension`.
pub open spec fn spec_upload_decision(
    auth: Result<Claims, AuthError>,
    parts: Seq<PartView>,
    malformed: bool,
    restrict_extensions: bool,
) -> UploadDecisionView {
    match auth {
        Result::Err(_) => UploadDecisionView::Reject { error: GatewayError::AuthInvalid },
        Result::Ok(claims) => if !claims.role.spec_may_upload() {
            UploadDecisionView::Reject { error: GatewayError::Forbidden }
        } else if malformed {
            UploadDecisionView::Reject { error: GatewayError::DecodeFailure }
        } else {
            let f = spec_accumulate(parts);
            if !spec_upload_valid(f, restrict_extensions) {
                UploadDecisionView::Reject { error: GatewayError::ValidationFailure }
            } else {
                UploadDecisionView::Store { key: f.file_name + f.ext, payload: f.bytes }
            }
        },
    }
}

/// Decides one upload request. `auth` is the outcome of bearer-token
/// verification, `parts` the decoded parts in arrival order, `malformed`
/// whether decoding the body failed after those parts. The caller performs
/// the returned write, if any — at most one per request.
pub fn upload_image(
    auth: Result<Claims, AuthError>,
    parts: &Vec<Part>,
    malformed: bool,
    policy: &UploadPolicy,
) -> (d: UploadDecision)
    ensures
        d@ == spec_upload_decision(
            auth,
            views_of_parts(parts@),
            malformed,
            policy.restrict_extensions,
        ),
{
    let claims = match auth {
        Result::Ok(c) => c,
        Result::Err(_) => {
            return UploadDecision::Reject { error: GatewayError::AuthInvalid };
        },
    };
    if !claims.role.may_upload() {
        return UploadDecision::Reject { error: GatewayError::Forbidden };
    }
    if malformed {
        return UploadDecision::Reject { error: GatewayError::DecodeFailure };
    }
    let ghost pviews = views_of_parts(parts@);
    let mut file = File::new();
    proof {
        assert(file@ =~= spec_empty_file());
        assert(pviews.subrange(0, 0) =~= Seq::<PartView>::empty());
    }
    let mut idx: usize = 0;
    while idx < parts.len()
        invariant
            idx <= parts@.len(),
            pviews == views_of_parts(parts@),
            pviews.len() == parts@.len(),
            file@ == spec_accumulate(pviews.subrange(0, idx as int)),
        decreases parts@.len() - idx,
    {
        apply_part(&mut file, &parts[idx]);
        proof {
            assert(pviews.subrange(0, idx + 1).drop_last() =~= pviews.subrange(0, idx as int));
            assert(pviews.subrange(0, idx + 1).last() == parts@[idx as int]@);
        }
        idx = idx + 1;
    }
    proof {
        assert(pviews.subrange(0, pviews.len() as int) =~= pviews);
    }
    if !file.is_complete() {
        return UploadDecision::Reject { error: GatewayError::ValidationFailure };
    }
    let mut key = file.file_name.clone();
    key.append(file.ext.as_str());
    if !key_is_safe(key.as_str()) {
        return UploadDecision::Reject { error: GatewayError::ValidationFailure };
    }
    if policy.restrict_extensions && !is_image_ext(file.ext.as_str()) {
        return UploadDecision::Reject { error: GatewayError::ValidationFailure };
    }
    UploadDecision::Store { key, payload: file.bytes }
}

// ---------------------------------------------------------------------------
// The read path
// ---------------------------------------------------------------------------

/// A fetched object, ready to serve: its raw bytes and the content type
/// resolved from the requested key.
#[derive(Clone, Debug)]
pub struct FetchedImage {
    pub content_type: String,
    pub bytes: Vec<u8>,
}

/// Serves one fetch. `object` is what the store returned for the requested
/// key: the object's bytes, or nothing. An absent object answers NotFound —
/// never a crash.
pub fn find_image(name: &str, object: Option<Vec<u8>>) -> (r: Result<FetchedImage, GatewayError>)
    ensures
        match object {
            Option::Some(b) => match r {
                Result::Ok(img) => img.content_type@ == spec_content_type(name@) && img.bytes
                    == b,
                Result::Err(_) => false,
            },
            Option::None => r == Result::<FetchedImage, GatewayError>::Err(
                GatewayError::NotFound,
            ),
        },
{
    match object {
        Option::Some(b) => {
            let ct = determine_content_type(name);
            Result::Ok(FetchedImage { content_type: ct.to_owned(), bytes: b })
        },
        Option::None => Result::Err(GatewayError::NotFound),
    }
}

/// Settles the upload after the single store write: success carries the
/// final object key; a failed write is classified as a backend failure.
pub fn upload_outcome(key: String, stored: bool) -> (r: Result<String, GatewayError>)
    ensures
        stored ==> r == Result::<String, GatewayError>::Ok(key),
        !stored ==> r == Result::<String, GatewayError>::Err(GatewayError::BackendFailure),
{
    if stored {
        Result::Ok(key)
    } else {
        Result::Err(GatewayError::BackendFailure)
    }
}

// ---------------------------------------------------------------------------
// The store, modelled
// ---------------------------------------------------------------------------

/// The object store as the pipeline sees it: a map from keys to byte
/// contents, with strong read-after-write consistency per key.
pub open spec fn spec_store_after(
    store: Map<Seq<char>, Seq<u8>>,
    d: UploadDecisionView,
) -> Map<Seq<char>, Seq<u8>> {
    match d {
        UploadDecisionView::Store { key, payload } => store.insert(key, payload),
        UploadDecisionView::Reject { .. } => store,
    }
}

/// One read against the store model.
pub open spec fn spec_lookup(store: Map<Seq<char>, Seq<u8>>, key: Seq<char>) -> Option<Seq<u8>> {
    if store.dom().contains(key) {
        Option::Some(store[key])
    } else {
        Option::None
    }
}

// ---------------------------------------------------------------------------
// Laws of the pipeline
// ---------------------------------------------------------------------------

/// Round trip: when the pipeline decides to store, fetching the returned key
/// right after that one write yields exactly the uploaded payload.
pub proof fn lemma_upload_fetch_round_trip(
    store: Map<Seq<char>, Seq<u8>>,
    auth: Result<Claims, AuthError>,
    parts: Seq<PartView>,
    malformed: bool,
    restrict_extensions: bool,
    key: Seq<char>,
    payload: Seq<u8>,
)
    requires
        spec_upload_decision(auth, parts, malformed, restrict_extensions)
            == (UploadDecisionView::Store { key, payload }),
    ensures
        spec_lookup(
            spec_store_after(store, UploadDecisionView::Store { key, payload }),
            key,
        ) == Option::Some(payload),
{
}

proof fn lemma_last_dot_append(name: Seq<char>, ext: Seq<char>)
    requires
        !ext.contains('.'),
    ensures
        last_dot_index(name + seq!['.'] + ext) == name.len(),
    decreases ext.len(),
{
    let s = name + seq!['.'] + ext;
    if ext.len() == 0 {
        assert(s.len() == name.len() + 1);
        assert(s[s.len() - 1] == '.');
    } else {
        assert(ext.contains(ext[ext.len() - 1]));
        assert(s[s.len() - 1] == ext[ext.len() - 1]);
        assert(s.drop_last() =~= name + seq!['.'] + ext.drop_last());
        assert forall|i: int| 0 <= i < ext.drop_last().len() implies ext.drop_last()[i]
            != '.' by {
            assert(ext.drop_last()[i] == ext[i]);
        }
        lemma_last_dot_append(name, ext.drop_last());
    }
}

/// Any valid (name, extension, payload) triple, sent as one metadata part
/// and one payload part under an authorized role, is accepted and stored
/// under the key `name + '.' + extension` with the payload unchanged.
pub proof fn lemma_valid_triple_is_stored(
    claims: Claims,
    name: Seq<char>,
    ext: Seq<char>,
    payload: Seq<u8>,
    restrict_extensions: bool,
)
    requires
        claims.role.spec_may_upload(),
        name.len() > 0,
        ext.len() > 0,
        !ext.contains('.'),
        payload.len() > 0,
        spec_key_safe(name + seq!['.'] + ext),
        restrict_extensions ==> spec_is_image_ext(seq!['.'] + ext),
    ensures
        spec_upload_decision(
            Result::Ok(claims),
            seq![
                PartView::Text { name: "product_id"@, value: name + seq!['.'] + ext },
                PartView::Binary { name: "file"@, data: payload },
            ],
            false,
            restrict_extensions,
        ) == (UploadDecisionView::Store { key: name + seq!['.'] + ext, payload }),
{
    let v = name + seq!['.'] + ext;
    let meta = PartView::Text { name: "product_id"@, value: v };
    let load = PartView::Binary { name: "file"@, data: payload };
    let parts = seq![meta, load];
    assert(parts.drop_last() =~= seq![meta]);
    assert(seq![meta].drop_last() =~= Seq::<PartView>::empty());
    lemma_last_dot_append(name, ext);
    assert(stem_before_last_dot(v) =~= name);
    assert(ext_after_last_dot(v) =~= ext);
    let f1 = spec_apply_part(spec_empty_file(), meta);
    assert(f1.file_name == name);
    assert(f1.ext == seq!['.'] + ext);
    let f = spec_apply_part(f1, load);
    assert(f.bytes =~= payload);
    assert(f.file_name + f.ext =~= v);
    assert(spec_accumulate(Seq::<PartView>::empty()) == spec_empty_file());
    assert(spec_accumulate(seq![meta]) == f1);
    assert(spec_accumulate(parts) == f);
}

/// An upload whose accumulated file ends with an empty payload, an empty
/// name, an empty extension, or — under the restricting policy — an
/// extension outside the allow-list, is rejected as a validation failure,
/// and the store is left unchanged.
pub proof fn lemma_invalid_upload_is_rejected(
    store: Map<Seq<char>, Seq<u8>>,
    claims: Claims,
    parts: Seq<PartView>,
    restrict_extensions: bool,
)
    requires
        claims.role.spec_may_upload(),
        ({
            let f = spec_accumulate(parts);
            ||| f.bytes.len() == 0
            ||| f.file_name.len() == 0
            ||| f.ext.len() == 0
            ||| restrict_extensions && !spec_is_image_ext(f.ext)
        }),
    ensures
        spec_upload_decision(Result::Ok(claims), parts, false, restrict_extensions)
            == (UploadDecisionView::Reject { error: GatewayError::ValidationFailure }),
        spec_store_after(
            store,
            spec_upload_decision(Result::Ok(claims), parts, false, restrict_extensions),
        ) == store,
{
}

/// An upload without a valid bearer token is rejected as AuthInvalid; one
/// whose token carries the cashier role is rejected as Forbidden; neither
/// decision writes to the store.
pub proof fn lemma_unauthorized_upload_writes_nothing(
    store: Map<Seq<char>, Seq<u8>>,
    claims: Claims,
    parts: Seq<PartView>,
    malformed: bool,
    restrict_extensions: bool,
)
    ensures
        spec_upload_decision(
            Result::Err(AuthError::InvalidToken),
            parts,
            malformed,
            restrict_extensions,
        ) == (UploadDecisionView::Reject { error: GatewayError::AuthInvalid }),
        spec_store_after(
            store,
            spec_upload_decision(
                Result::Err(AuthError::InvalidToken),
                parts,
                malformed,
                restrict_extensions,
            ),
        ) == store,
        claims.role == Role::AdminCashier ==> spec_upload_decision(
            Result::Ok(claims),
            parts,
            malformed,
            restrict_extensions,
        ) == (UploadDecisionView::Reject { error: GatewayError::Forbidden }),
        claims.role == Role::AdminCashier ==> spec_store_after(
            store,
            spec_upload_decision(Result::Ok(claims), parts, malformed, restrict_extensions),
        ) == store,
{
}

/// Fetching a key that was never stored finds no object, so the read path
/// answers NotFound rather than failing.
pub proof fn lemma_fetch_missing_key(store: Map<Seq<char>, Seq<u8>>, key: Seq<char>)
    requires
        !store.dom().contains(key),
    ensures
        spec_lookup(store, key) is None,
{
}

} // verus!
