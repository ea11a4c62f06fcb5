use vstd::prelude::*;

use crate::text::{
    contains_ignore_case, eq_ignore_case, lemma_lower_chars_idempotent, lower_char, lower_chars,
    starts_with, str_contains_ignore_case, str_eq_ignore_case, str_starts_with,
};

verus! {

/// The kind of media a file holds, as far as the pipeline can tell.
#[derive(Debug, Clone, Copy, PartialEq, Eq, Structural)]
pub enum MediaKind {
    Video,
    Image,
    Unknown,
}

impl MediaKind {
    /// Lower-case tag for diagnostics and delivery decisions.
    pub fn to_str(&self) -> (r: &str)
        ensures
            *self == MediaKind::Video ==> r@ == "video"@,
            *self == MediaKind::Image ==> r@ == "image"@,
            *self == MediaKind::Unknown ==> r@ == "unknown"@,
    {
        match self {
            MediaKind::Video => "video",
            MediaKind::Image => "image",
            MediaKind::Unknown => "unknown",
        }
    }
}

// --- File-name extensions -----------------------------------------------------

/// Index of the last `.` in `s` that can begin an extension (never the first
/// character, so hidden-file names such as `.profile` have no extension), or
/// `-1` when there is none.
pub open spec fn last_dot(s: Seq<char>) -> int
    decreases s.len(),
{
    if s.len() <= 1 {
        -1
    } else if s[s.len() - 1] == '.' {
        s.len() - 1
    } else {
        last_dot(s.drop_last())
    }
}

/// The extension of a file name: what follows the last dot, if any.
pub open spec fn ext_of(s: Seq<char>) -> Option<Seq<char>> {
    if last_dot(s) >= 1 {
        Some(s.skip(last_dot(s) + 1))
    } else {
        None
    }
}

proof fn lemma_last_dot_bounds(s: Seq<char>)
    ensures
        last_dot(s) == -1 || (1 <= last_dot(s) < s.len() && s[last_dot(s)] == '.'),
        forall|j: int| last_dot(s) < j < s.len() && j >= 1 ==> s[j] != '.',
    decreases s.len(),
{
    if s.len() > 1 && s[s.len() - 1] != '.' {
        lemma_last_dot_bounds(s.drop_last());
        assert forall|j: int| last_dot(s) < j < s.len() && j >= 1 implies s[j] != '.' by {
            if j < s.len() - 1 {
                assert(s.drop_last()[j] == s[j]);
            }
        }
    }
}

/// The extension of a file name, as a slice of it.
pub fn extension_of(name: &str) -> (r: Option<&str>)
    ensures
        r matches Some(e) ==> ext_of(name@) == Some(e@),
        r is None ==> ext_of(name@) is None,
{
    let n = name.unicode_len();
    let mut i: usize = n;
    while i > 1
        invariant
            n == name@.len(),
            i <= n,
            forall|j: int| i <= j < n && j >= 1 ==> name@[j] != '.',
        decreases i,
    {
        if name.get_char(i - 1) == '.' {
            proof {
                lemma_last_dot_bounds(name@);
                let d = last_dot(name@);
                if d > i - 1 {
                    assert(name@[d] == '.');
                } else if d < i - 1 {
                    assert(name@[i - 1] != '.');
                }
                assert(d == i - 1);
            }
            let e = name.substring_char(i, n);
            assert(e@ =~= name@.skip(i as int));
            return Some(e);
        }
        i = i - 1;
    }
    proof {
        lemma_last_dot_bounds(name@);
        let d = last_dot(name@);
        if d >= 1 {
            assert(name@[d] == '.');
        }
        assert(d == -1);
    }
    None
}

// --- The configured extension sets ---------------------------------------------

/// Extensions treated as video, up to ASCII case.
pub open spec fn is_video_ext(e: Seq<char>) -> bool {
    ||| eq_ignore_case(e, "mp4"@)
    ||| eq_ignore_case(e, "webm"@)
    ||| eq_ignore_case(e, "mov"@)
    ||| eq_ignore_case(e, "mkv"@)
    ||| eq_ignore_case(e, "avi"@)
    ||| eq_ignore_case(e, "m4v"@)
    ||| eq_ignore_case(e, "3gp"@)
}

/// Extensions treated as image, up to ASCII case.
pub open spec fn is_image_ext(e: Seq<char>) -> bool {
    ||| eq_ignore_case(e, "jpg"@)
    ||| eq_ignore_case(e, "jpeg"@)
    ||| eq_ignore_case(e, "png"@)
    ||| eq_ignore_case(e, "webp"@)
    ||| eq_ignore_case(e, "gif"@)
    ||| eq_ignore_case(e, "bmp"@)
}

/// Sidecar files some fetch tools emit besides the media itself.
pub open spec fn is_forbidden_ext(e: Seq<char>) -> bool {
    ||| eq_ignore_case(e, "json"@)
    ||| eq_ignore_case(e, "txt"@)
    ||| eq_ignore_case(e, "log"@)
}

/// Executable membership test for the video extension set.
pub fn video_ext(e: &str) -> (r: bool)
    ensures
        r == is_video_ext(e@),
{
    str_eq_ignore_case(e, "mp4") || str_eq_ignore_case(e, "webm") || str_eq_ignore_case(e, "mov")
        || str_eq_ignore_case(e, "mkv") || str_eq_ignore_case(e, "avi") || str_eq_ignore_case(
        e,
        "m4v",
    ) || str_eq_ignore_case(e, "3gp")
}

/// Executable membership test for the image extension set.
pub fn image_ext(e: &str) -> (r: bool)
    ensures
        r == is_image_ext(e@),
{
    str_eq_ignore_case(e, "jpg") || str_eq_ignore_case(e, "jpeg") || str_eq_ignore_case(e, "png")
        || str_eq_ignore_case(e, "webp") || str_eq_ignore_case(e, "gif") || str_eq_ignore_case(
        e,
        "bmp",
    )
}

/// Executable membership test for the forbidden extension set.
pub fn forbidden_ext(e: &str) -> (r: bool)
    ensures
        r == is_forbidden_ext(e@),
{
    str_eq_ignore_case(e, "json") || str_eq_ignore_case(e, "txt") || str_eq_ignore_case(e, "log")
}

// --- Classification -------------------------------------------------------------

/// What the extension alone says of a file name: `Unknown` means the name does
/// not settle the kind and content sniffing decides.
pub open spec fn kind_of_name(name: Seq<char>) -> MediaKind {
    match ext_of(name) {
        Some(e) => if is_video_ext(e) {
            MediaKind::Video
        } else if is_image_ext(e) {
            MediaKind::Image
        } else {
            MediaKind::Unknown
        },
        None => MediaKind::Unknown,
    }
}

/// The MIME type that content sniffing reports for a byte buffer, or `None`
/// when the buffer matches no known signature.
pub uninterp spec fn sniffed_mime(bytes: Seq<u8>) -> Option<Seq<char>>;

/// Relies on `infer::get` and `infer::Type::mime_type`: the detected type is a
/// function of the buffer's bytes alone, reported as a MIME string.
#[verifier::external_body]
fn sniff_mime(buf: &[u8]) -> (r: Option<String>)
    ensures
        r matches Some(m) ==> sniffed_mime(buf@) == Some(m@),
        r is None ==> sniffed_mime(buf@) is None,
{
    match infer::get(buf) {
        Some(t) => Some(t.mime_type().to_string()),
        None => None,
    }
}

/// What a sniffed MIME type means for the media kind: only the top-level token
/// counts.
pub open spec fn kind_of_mime(m: Option<Seq<char>>) -> MediaKind {
    match m {
        Some(t) => if starts_with(t, "video/"@) {
            MediaKind::Video
        } else if starts_with(t, "image/"@) {
            MediaKind::Image
        } else {
            MediaKind::Unknown
        },
        None => MediaKind::Unknown,
    }
}

/// Classify a byte buffer by its content signature alone.
pub fn classify_content(buf: &[u8]) -> (k: MediaKind)
    ensures
        k == kind_of_mime(sniffed_mime(buf@)),
{
    match sniff_mime(buf) {
        Some(m) => {
            if str_starts_with(m.as_str(), "video/") {
                MediaKind::Video
            } else if str_starts_with(m.as_str(), "image/") {
                MediaKind::Image
            } else {
                MediaKind::Unknown
            }
        },
        None => MediaKind::Unknown,
    }
}

/// The full classification: extension first, then the sniffed content of the
/// file's leading bytes, if they could be read.
pub open spec fn spec_detect(name: Seq<char>, prefix: Option<Seq<u8>>) -> MediaKind {
    if kind_of_name(name) != MediaKind::Unknown {
        kind_of_name(name)
    } else {
        match prefix {
            Some(b) => kind_of_mime(sniffed_mime(b)),
            None => MediaKind::Unknown,
        }
    }
}

/// Determine a file's media kind from its name and, when the extension does
/// not settle it, from a prefix of its bytes (`None` when the file could not
/// be read). Never fails: an unreadable or unrecognized file is `Unknown`.
pub fn detect_media_kind(name: &str, prefix: Option<&[u8]>) -> (k: MediaKind)
    ensures
        prefix matches Some(b) ==> k == spec_detect(name@, Some(b@)),
        prefix is None ==> k == spec_detect(name@, None),
{
    let by_name = match extension_of(name) {
        Some(e) => {
            if video_ext(e) {
                MediaKind::Video
            } else if image_ext(e) {
                MediaKind::Image
            } else {
                MediaKind::Unknown
            }
        },
        None => MediaKind::Unknown,
    };
    if by_name != MediaKind::Unknown {
        return by_name;
    }
    match prefix {
        Some(buf) => classify_content(buf),
        None => MediaKind::Unknown,
    }
}

// --- Classification laws -----------------------------------------------------------

/// Lower-casing leaves a sequence without upper-case ASCII letters unchanged.
proof fn lemma_lower_chars_fixed(s: Seq<char>)
    requires
        forall|i: int| 0 <= i < s.len() ==> !('A' <= #[trigger] s[i] && s[i] <= 'Z'),
    ensures
        lower_chars(s) == s,
{
    assert forall|i: int| 0 <= i < s.len() implies lower_chars(s)[i] == s[i] by {}
    assert(lower_chars(s) =~= s);
}

/// Two sequences differing at one position differ.
proof fn lemma_lit_neq(a: Seq<char>, b: Seq<char>, k: int)
    requires
        0 <= k < a.len(),
        0 <= k < b.len(),
        a[k] != b[k],
    ensures
        a != b,
{
}

/// No extension is both a video and an image extension.
pub proof fn lemma_extension_sets_disjoint(e: Seq<char>)
    ensures
        !(is_video_ext(e) && is_image_ext(e)),
{
    reveal_strlit("mp4");
    reveal_strlit("webm");
    reveal_strlit("mov");
    reveal_strlit("mkv");
    reveal_strlit("avi");
    reveal_strlit("m4v");
    reveal_strlit("3gp");
    reveal_strlit("jpg");
    reveal_strlit("jpeg");
    reveal_strlit("png");
    reveal_strlit("webp");
    reveal_strlit("gif");
    reveal_strlit("bmp");
    lemma_lower_chars_fixed("mp4"@);
    lemma_lower_chars_fixed("webm"@);
    lemma_lower_chars_fixed("mov"@);
    lemma_lower_chars_fixed("mkv"@);
    lemma_lower_chars_fixed("avi"@);
    lemma_lower_chars_fixed("m4v"@);
    lemma_lower_chars_fixed("3gp"@);
    lemma_lower_chars_fixed("jpg"@);
    lemma_lower_chars_fixed("jpeg"@);
    lemma_lower_chars_fixed("png"@);
    lemma_lower_chars_fixed("webp"@);
    lemma_lower_chars_fixed("gif"@);
    lemma_lower_chars_fixed("bmp"@);
    lemma_lit_neq("mp4"@, "jpg"@, 0);
    lemma_lit_neq("mp4"@, "png"@, 0);
    lemma_lit_neq("mp4"@, "gif"@, 0);
    lemma_lit_neq("mp4"@, "bmp"@, 0);
    lemma_lit_neq("mov"@, "jpg"@, 0);
    lemma_lit_neq("mov"@, "png"@, 0);
    lemma_lit_neq("mov"@, "gif"@, 0);
    lemma_lit_neq("mov"@, "bmp"@, 0);
    lemma_lit_neq("mkv"@, "jpg"@, 0);
    lemma_lit_neq("mkv"@, "png"@, 0);
    lemma_lit_neq("mkv"@, "gif"@, 0);
    lemma_lit_neq("mkv"@, "bmp"@, 0);
    lemma_lit_neq("avi"@, "jpg"@, 0);
    lemma_lit_neq("avi"@, "png"@, 0);
    lemma_lit_neq("avi"@, "gif"@, 0);
    lemma_lit_neq("avi"@, "bmp"@, 0);
    lemma_lit_neq("m4v"@, "jpg"@, 0);
    lemma_lit_neq("m4v"@, "png"@, 0);
    lemma_lit_neq("m4v"@, "gif"@, 0);
    lemma_lit_neq("m4v"@, "bmp"@, 0);
    lemma_lit_neq("3gp"@, "jpg"@, 0);
    lemma_lit_neq("3gp"@, "png"@, 0);
    lemma_lit_neq("3gp"@, "gif"@, 0);
    lemma_lit_neq("3gp"@, "bmp"@, 0);
    lemma_lit_neq("webm"@, "jpeg"@, 0);
    lemma_lit_neq("webm"@, "webp"@, 3);
}

/// A name with a recognized video extension always classifies as video.
pub proof fn lemma_video_extension_classifies(name: Seq<char>, e: Seq<char>)
    requires
        ext_of(name) == Some(e),
        is_video_ext(e),
    ensures
        kind_of_name(name) == MediaKind::Video,
{
}

/// A name with a recognized image extension always classifies as image.
pub proof fn lemma_image_extension_classifies(name: Seq<char>, e: Seq<char>)
    requires
        ext_of(name) == Some(e),
        is_image_ext(e),
    ensures
        kind_of_name(name) == MediaKind::Image,
{
    lemma_extension_sets_disjoint(e);
}

/// A name the extension sets do not settle classifies by its content alone.
pub proof fn lemma_unrecognized_extension_sniffs(name: Seq<char>, b: Seq<u8>)
    requires
        kind_of_name(name) == MediaKind::Unknown,
    ensures
        spec_detect(name, Some(b)) == kind_of_mime(sniffed_mime(b)),
{
}

/// Lower-casing a name moves its last dot nowhere.
proof fn lemma_last_dot_lower(s: Seq<char>)
    ensures
        last_dot(lower_chars(s)) == last_dot(s),
    decreases s.len(),
{
    let l = lower_chars(s);
    assert(l.len() == s.len());
    if s.len() > 1 {
        assert(l[s.len() - 1] == lower_char(s[s.len() - 1]));
        if s[s.len() - 1] == '.' {
            assert(l[s.len() - 1] == '.');
        } else {
            assert(l[s.len() - 1] != '.');
            lemma_last_dot_lower(s.drop_last());
            assert(l.drop_last() =~= lower_chars(s.drop_last()));
        }
    }
}

/// Classification by extension is insensitive to ASCII case: two file names
/// equal up to case classify alike.
pub proof fn lemma_classification_case_insensitive(n1: Seq<char>, n2: Seq<char>)
    requires
        eq_ignore_case(n1, n2),
    ensures
        kind_of_name(n1) == kind_of_name(n2),
{
    lemma_kind_of_name_lower(n1);
    lemma_kind_of_name_lower(n2);
}

/// Lower-casing a file name never changes what the name alone says of its kind.
proof fn lemma_kind_of_name_lower(name: Seq<char>)
    ensures
        kind_of_name(lower_chars(name)) == kind_of_name(name),
{
    lemma_last_dot_lower(name);
    lemma_last_dot_bounds(name);
    let l = lower_chars(name);
    if last_dot(name) >= 1 {
        let d = last_dot(name);
        let e = name.skip(d + 1);
        assert forall|k: int| 0 <= k < e.len() implies l.skip(d + 1)[k] == lower_chars(e)[k] by {
            assert(l[d + 1 + k] == lower_char(name[d + 1 + k]));
            assert(lower_chars(e)[k] == lower_char(e[k]));
            assert(e[k] == name[d + 1 + k]);
        }
        assert(l.skip(d + 1) =~= lower_chars(e));
        assert(ext_of(l) == Some(lower_chars(e)));
        lemma_lower_chars_idempotent(e);
        assert(is_video_ext(lower_chars(e)) == is_video_ext(e));
        assert(is_image_ext(lower_chars(e)) == is_image_ext(e));
    }
}

// --- Workspace pre-filter --------------------------------------------------------

/// A file name that is worth classifying: not hidden, not tool metadata, and
/// bearing an allowed media extension.
pub open spec fn spec_is_potential_media(name: Seq<char>) -> bool {
    &&& !(name.len() > 0 && name[0] == '.')
    &&& !contains_ignore_case(name, "metadata"@)
    &&& match ext_of(name) {
        Some(e) => !is_forbidden_ext(e) && (is_video_ext(e) || is_image_ext(e)),
        None => false,
    }
}

/// Name-based pre-filter applied to workspace entries before classification.
pub fn is_potential_media_file(name: &str) -> (r: bool)
    ensures
        r == spec_is_potential_media(name@),
{
    if name.unicode_len() > 0 && name.get_char(0) == '.' {
        return false;
    }
    if str_contains_ignore_case(name, "metadata") {
        return false;
    }
    match extension_of(name) {
        Some(e) => {
            if forbidden_ext(e) {
                return false;
            }
            video_ext(e) || image_ext(e)
        },
        None => false,
    }
}

} // verus!
