//! Filename handling: ASCII lowercasing, splitting a filename on its last
//! dot, the content-type resolver for the read path, the image-extension
//! allow-list, the upload accumulator, and the claims model for the
//! authorization gate.

use vstd::prelude::*;
use vstd::string::StrSliceExecFns;
use vstd::string::StringExecFns;

verus! {

// ---------------------------------------------------------------------------
// ASCII lowercasing
// ---------------------------------------------------------------------------

/// ASCII lowercasing of one character; everything outside 'A'..='Z' is kept.
pub open spec fn lower_char(c: char) -> char {
    if c == 'A' {
        'a'
    } else if c == 'B' {
        'b'
    } else if c == 'C' {
        'c'
    } else if c == 'D' {
        'd'
    } else if c == 'E' {
        'e'
    } else if c == 'F' {
        'f'
    } else if c == 'G' {
        'g'
    } else if c == 'H' {
        'h'
    } else if c == 'I' {
        'i'
    } else if c == 'J' {
        'j'
    } else if c == 'K' {
        'k'
    } else if c == 'L' {
        'l'
    } else if c == 'M' {
        'm'
    } else if c == 'N' {
        'n'
    } else if c == 'O' {
        'o'
    } else if c == 'P' {
        'p'
    } else if c == 'Q' {
        'q'
    } else if c == 'R' {
        'r'
    } else if c == 'S' {
        's'
    } else if c == 'T' {
        't'
    } else if c == 'U' {
        'u'
    } else if c == 'V' {
        'v'
    } else if c == 'W' {
        'w'
    } else if c == 'X' {
        'x'
    } else if c == 'Y' {
        'y'
    } else if c == 'Z' {
        'z'
    } else {
        c
    }
}

pub open spec fn lower_seq(s: Seq<char>) -> Seq<char> {
    s.map_values(|c: char| lower_char(c))
}

fn char_to_lower(c: char) -> (r: char)
    ensures
        r == lower_char(c),
{
    match c {
        'A' => 'a',
        'B' => 'b',
        'C' => 'c',
        'D' => 'd',
        'E' => 'e',
        'F' => 'f',
        'G' => 'g',
        'H' => 'h',
        'I' => 'i',
        'J' => 'j',
        'K' => 'k',
        'L' => 'l',
        'M' => 'm',
        'N' => 'n',
        'O' => 'o',
        'P' => 'p',
        'Q' => 'q',
        'R' => 'r',
        'S' => 's',
        'T' => 't',
        'U' => 'u',
        'V' => 'v',
        'W' => 'w',
        'X' => 'x',
        'Y' => 'y',
        'Z' => 'z',
        _ => c,
    }
}

/// Case-insensitive (ASCII) equality of two strings.
pub fn eq_ignore_case(a: &str, b: &str) -> (r: bool)
    ensures
        r == (lower_seq(a@) == lower_seq(b@)),
{
    let an = a.unicode_len();
    let bn = b.unicode_len();
    if an != bn {
        assert(lower_seq(a@).len() != lower_seq(b@).len());
        return false;
    }
    let mut i: usize = 0;
    while i < an
        invariant
            an == a@.len(),
            an == b@.len(),
            i <= an,
            forall|j: int| 0 <= j < i ==> lower_char(a@[j]) == lower_char(b@[j]),
        decreases an - i,
    {
        let ca = a.get_char(i);
        let cb = b.get_char(i);
        if char_to_lower(ca) != char_to_lower(cb) {
            assert(lower_seq(a@)[i as int] != lower_seq(b@)[i as int]);
            return false;
        }
        i = i + 1;
    }
    assert(lower_seq(a@) =~= lower_seq(b@));
    true
}

/// Character-for-character equality of two strings.
pub fn str_eq(a: &str, b: &str) -> (r: bool)
    ensures
        r == (a@ == b@),
{
    let an = a.unicode_len();
    let bn = b.unicode_len();
    if an != bn {
        return false;
    }
    let mut i: usize = 0;
    while i < an
        invariant
            an == a@.len(),
            an == b@.len(),
            i <= an,
            forall|j: int| 0 <= j < i ==> a@[j] == b@[j],
        decreases an - i,
    {
        if a.get_char(i) != b.get_char(i) {
            return false;
        }
        i = i + 1;
    }
    assert(a@ =~= b@);
    true
}

// ---------------------------------------------------------------------------
// Splitting a filename on its last dot
// ---------------------------------------------------------------------------

/// Index of the last '.' in `s`, or -1 when there is none.
pub open spec fn last_dot_index(s: Seq<char>) -> int
    decreases s.len(),
{
    if s.len() == 0 {
        -1
    } else if s[s.len() - 1] == '.' {
        s.len() - 1
    } else {
        last_dot_index(s.drop_last())
    }
}

pub proof fn lemma_last_dot_index(s: Seq<char>)
    ensures
        -1 <= last_dot_index(s) < s.len(),
        last_dot_index(s) >= 0 ==> s[last_dot_index(s)] == '.',
        forall|j: int| last_dot_index(s) < j < s.len() ==> s[j] != '.',
    decreases s.len(),
{
    if s.len() > 0 && s[s.len() - 1] != '.' {
        lemma_last_dot_index(s.drop_last());
        assert forall|j: int| last_dot_index(s) < j < s.len() implies s[j] != '.' by {
            if j < s.len() - 1 {
                assert(s.drop_last()[j] == s[j]);
            }
        }
    }
}

/// The characters after the last dot; empty when there is no dot.
pub open spec fn ext_after_last_dot(s: Seq<char>) -> Seq<char> {
    if last_dot_index(s) < 0 {
        Seq::empty()
    } else {
        s.subrange(last_dot_index(s) + 1, s.len() as int)
    }
}

/// The characters before the last dot; the whole string when there is no dot.
pub open spec fn stem_before_last_dot(s: Seq<char>) -> Seq<char> {
    if last_dot_index(s) < 0 {
        s
    } else {
        s.subrange(0, last_dot_index(s))
    }
}

/// The extension attribute stored by the accumulator: the characters after
/// the last dot with the separator re-attached, or empty when the value
/// carries no dot at all.
pub open spec fn spec_ext_with_sep(v: Seq<char>) -> Seq<char> {
    if last_dot_index(v) < 0 {
        Seq::empty()
    } else {
        seq!['.'] + ext_after_last_dot(v)
    }
}

/// Locates the last '.' of a string.
pub fn find_last_dot(s: &str) -> (r: Option<usize>)
    ensures
        match r {
            Some(i) => last_dot_index(s@) == i,
            None => last_dot_index(s@) == -1,
        },
{
    let n = s.unicode_len();
    let mut i: usize = 0;
    let mut found: Option<usize> = None;
    while i < n
        invariant
            n == s@.len(),
            i <= n,
            match found {
                Some(k) => last_dot_index(s@.subrange(0, i as int)) == k,
                None => last_dot_index(s@.subrange(0, i as int)) == -1,
            },
        decreases n - i,
    {
        let c = s.get_char(i);
        proof {
            assert(s@.subrange(0, i + 1).drop_last() =~= s@.subrange(0, i as int));
            assert(s@.subrange(0, i + 1)[i as int] == s@[i as int]);
        }
        if c == '.' {
            found = Some(i);
        }
        i = i + 1;
    }
    proof {
        assert(s@.subrange(0, n as int) =~= s@);
    }
    found
}

// ---------------------------------------------------------------------------
// Content-type resolver
// ---------------------------------------------------------------------------

/// The fixed extension table of the resolver, applied to an already isolated
/// extension (without its leading dot).
pub open spec fn mime_for_ext(e: Seq<char>) -> Seq<char> {
    let le = lower_seq(e);
    if le == "png"@ {
        "image/png"@
    } else if le == "jpg"@ || le == "jpeg"@ {
        "image/jpeg"@
    } else if le == "gif"@ {
        "image/gif"@
    } else if le == "webp"@ {
        "image/webp"@
    } else if le == "svg"@ {
        "image/svg+xml"@
    } else {
        "application/octet-stream"@
    }
}

/// What the resolver returns for a whole filename: the table applied to the
/// substring after the last dot (empty when there is none).
pub open spec fn spec_content_type(filename: Seq<char>) -> Seq<char> {
    mime_for_ext(ext_after_last_dot(filename))
}

proof fn lemma_table_keys_lowercase()
    ensures
        lower_seq("png"@) == "png"@,
        lower_seq("jpg"@) == "jpg"@,
        lower_seq("jpeg"@) == "jpeg"@,
        lower_seq("gif"@) == "gif"@,
        lower_seq("webp"@) == "webp"@,
        lower_seq("svg"@) == "svg"@,
        lower_seq(".png"@) == ".png"@,
        lower_seq(".jpg"@) == ".jpg"@,
        lower_seq(".jpeg"@) == ".jpeg"@,
        "png"@.len() == 3,
        "jpg"@.len() == 3,
        "jpeg"@.len() == 4,
        "gif"@.len() == 3,
        "webp"@.len() == 4,
        "svg"@.len() == 3,
        ".png"@.len() == 4,
        ".jpg"@.len() == 4,
        ".jpeg"@.len() == 5,
{
    reveal_strlit("png");
    reveal_strlit("jpg");
    reveal_strlit("jpeg");
    reveal_strlit("gif");
    reveal_strlit("webp");
    reveal_strlit("svg");
    reveal_strlit(".png");
    reveal_strlit(".jpg");
    reveal_strlit(".jpeg");
    assert(lower_seq("png"@) =~= "png"@);
    assert(lower_seq("jpg"@) =~= "jpg"@);
    assert(lower_seq("jpeg"@) =~= "jpeg"@);
    assert(lower_seq("gif"@) =~= "gif"@);
    assert(lower_seq("webp"@) =~= "webp"@);
    assert(lower_seq("svg"@) =~= "svg"@);
    assert(lower_seq(".png"@) =~= ".png"@);
    assert(lower_seq(".jpg"@) =~= ".jpg"@);
    assert(lower_seq(".jpeg"@) =~= ".jpeg"@);
}

/// Resolves a filename to the MIME type served with it. Pure and total:
/// unknown or absent extensions map to the generic binary type.
pub fn determine_content_type(filename: &str) -> (r: &'static str)
    ensures
        r@ == spec_content_type(filename@),
{
    proof {
        lemma_table_keys_lowercase();
    }
    let n = filename.unicode_len();
    match find_last_dot(filename) {
        None => {
            assert(lower_seq(ext_after_last_dot(filename@)).len() == 0);
            "application/octet-stream"
        },
        Some(i) => {
            proof {
                lemma_last_dot_index(filename@);
            }
            let ext = filename.substring_char(i + 1, n);
            assert(ext@ == ext_after_last_dot(filename@));
            if eq_ignore_case(ext, "png") {
                "image/png"
            } else if eq_ignore_case(ext, "jpg") || eq_ignore_case(ext, "jpeg") {
                "image/jpeg"
            } else if eq_ignore_case(ext, "gif") {
                "image/gif"
            } else if eq_ignore_case(ext, "webp") {
                "image/webp"
            } else if eq_ignore_case(ext, "svg") {
                "image/svg+xml"
            } else {
                "application/octet-stream"
            }
        },
    }
}

// ---------------------------------------------------------------------------
// Extension allow-list
// ---------------------------------------------------------------------------

/// The extension allow-list of the upload policy, compared case-insensitively
/// on extensions that carry their leading dot.
pub open spec fn spec_is_image_ext(e: Seq<char>) -> bool {
    ||| lower_seq(e) == ".jpeg"@
    ||| lower_seq(e) == ".jpg"@
    ||| lower_seq(e) == ".png"@
}

/// Whether `ext` (with its leading dot) is an allowed image extension.
pub fn is_image_ext(ext: &str) -> (r: bool)
    ensures
        r == spec_is_image_ext(ext@),
{
    proof {
        lemma_table_keys_lowercase();
    }
    eq_ignore_case(ext, ".jpeg") || eq_ignore_case(ext, ".jpg") || eq_ignore_case(ext, ".png")
}

// ---------------------------------------------------------------------------
// Upload accumulator
// ---------------------------------------------------------------------------

/// Mathematical content of a `File` under assembly.
#[verifier::ext_equal]
pub struct FileView {
    pub file_name: Seq<char>,
    pub ext: Seq<char>,
    pub bytes: Seq<u8>,
}

impl FileView {
    /// The completeness invariant a finished part stream must satisfy before
    /// an upload may proceed.
    pub open spec fn is_complete(self) -> bool {
        self.file_name.len() > 0 && self.ext.len() > 0 && self.bytes.len() > 0
    }
}

/// Accumulator for one logical upload: a stored name, an extension carrying
/// its leading dot, and the payload bytes. Assembled from multipart parts and
/// owned by a single request.
pub struct File {
    pub file_name: String,
    pub bytes: Vec<u8>,
    pub ext: String,
}

impl View for File {
    type V = FileView;

    open spec fn view(&self) -> FileView {
        FileView { file_name: self.file_name@, ext: self.ext@, bytes: self.bytes@ }
    }
}

impl File {
    pub fn new() -> (f: File)
        ensures
            f@.file_name.len() == 0,
            f@.ext.len() == 0,
            f@.bytes.len() == 0,
    {
        File { file_name: String::new(), bytes: Vec::new(), ext: String::new() }
    }

    pub fn file_name(&mut self, file_name: String)
        ensures
            final(self)@ == (FileView { file_name: file_name@, ..old(self)@ }),
    {
        self.file_name = file_name;
    }

    /// Appends one payload chunk; chunks arriving in several parts are
    /// concatenated, never dropped.
    pub fn bytes(&mut self, bytes: &[u8])
        ensures
            final(self)@ == (FileView { bytes: old(self)@.bytes + bytes@, ..old(self)@ }),
    {
        let mut i: usize = 0;
        while i < bytes.len()
            invariant
                i <= bytes@.len(),
                self.bytes@ == old(self).bytes@ + bytes@.subrange(0, i as int),
                self.file_name == old(self).file_name,
                self.ext == old(self).ext,
            decreases bytes@.len() - i,
        {
            self.bytes.push(bytes[i]);
            proof {
                assert(bytes@.subrange(0, i + 1) =~= bytes@.subrange(0, i as int).push(
                    bytes@[i as int],
                ));
            }
            i = i + 1;
        }
        proof {
            assert(bytes@.subrange(0, bytes@.len() as int) =~= bytes@);
        }
    }

    pub fn ext(&mut self, ext: String)
        ensures
            final(self)@ == (FileView { ext: ext@, ..old(self)@ }),
    {
        self.ext = ext;
    }

    pub fn is_complete(&self) -> (r: bool)
        ensures
            r == self@.is_complete(),
    {
        !self.file_name.as_str().is_empty() && !self.ext.as_str().is_empty() && self.bytes.len()
            > 0
    }
}

// ---------------------------------------------------------------------------
// Claims
// ---------------------------------------------------------------------------

/// Permission level carried by a verified token.
#[derive(Clone, Copy, PartialEq, Eq, Structural, Debug)]
pub enum Role {
    Admin,
    AdminStock,
    AdminCashier,
}

impl Role {
    /// The upload endpoint is open to Admin and AdminStock only; the read
    /// path needs no role at all.
    pub open spec fn spec_may_upload(self) -> bool {
        self == Role::Admin || self == Role::AdminStock
    }

    pub fn may_upload(&self) -> (r: bool)
        ensures
            r == self.spec_may_upload(),
    {
        match self {
            Role::Admin => true,
            Role::AdminStock => true,
            Role::AdminCashier => false,
        }
    }
}

/// Decoded, already signature-checked content of a bearer token; immutable
/// and scoped to one request.
#[derive(Clone, Debug)]
pub struct Claims {
    pub sub: String,
    pub exp: usize,
    pub iat: usize,
    pub role: Role,
}

/// Failure of bearer-token extraction or verification. Expired, malformed
/// and badly signed tokens are deliberately not told apart.
#[derive(Clone, Copy, PartialEq, Eq, Structural, Debug)]
pub enum AuthError {
    InvalidToken,
}

impl AuthError {
    pub fn status_code(&self) -> (s: u16)
        ensures
            s == 400,
    {
        400
    }

    pub fn message(&self) -> (m: String)
        ensures
            m@ == "Invalid token"@,
    {
        "Invalid token".to_owned()
    }
}

// ---------------------------------------------------------------------------
// Lowercasing does not change what the resolver answers
// ---------------------------------------------------------------------------

proof fn lemma_lower_seq_drop_last(s: Seq<char>)
    requires
        s.len() > 0,
    ensures
        lower_seq(s).drop_last() == lower_seq(s.drop_last()),
{
    assert(lower_seq(s).drop_last() =~= lower_seq(s.drop_last()));
}

proof fn lemma_last_dot_lower(s: Seq<char>)
    ensures
        last_dot_index(lower_seq(s)) == last_dot_index(s),
    decreases s.len(),
{
    if s.len() > 0 {
        assert(lower_seq(s)[s.len() - 1] == lower_char(s[s.len() - 1]));
        assert((lower_char(s[s.len() - 1]) == '.') == (s[s.len() - 1] == '.'));
        if s[s.len() - 1] != '.' {
            lemma_lower_seq_drop_last(s);
            lemma_last_dot_lower(s.drop_last());
        }
    }
}

proof fn lemma_lower_idempotent(s: Seq<char>)
    ensures
        lower_seq(lower_seq(s)) == lower_seq(s),
{
    assert forall|i: int| 0 <= i < s.len() implies lower_char(lower_char(s[i])) == lower_char(
        s[i],
    ) by {
    }
    assert(lower_seq(lower_seq(s)) =~= lower_seq(s));
}

/// The resolver does not care about the case of its input: lowercasing a
/// filename first leaves the resolved content type unchanged.
pub proof fn lemma_content_type_ignores_case(filename: Seq<char>)
    ensures
        spec_content_type(lower_seq(filename)) == spec_content_type(filename),
{
    lemma_last_dot_lower(filename);
    lemma_last_dot_index(filename);
    let e = ext_after_last_dot(filename);
    let lf = lower_seq(filename);
    let i = last_dot_index(filename);
    if i >= 0 {
        assert forall|k: int| 0 <= k < e.len() implies lf.subrange(i + 1, lf.len() as int)[k]
            == lower_seq(e)[k] by {
            assert(lf.subrange(i + 1, lf.len() as int)[k] == lf[i + 1 + k]);
            assert(lf[i + 1 + k] == lower_char(filename[i + 1 + k]));
            assert(e[k] == filename[i + 1 + k]);
            assert(lower_seq(e)[k] == lower_char(e[k]));
        }
    }
    assert(ext_after_last_dot(lf) =~= lower_seq(e));
    lemma_lower_idempotent(e);
}

} // verus!
