use vstd::prelude::*;
use vstd::string::StrSliceExecFns;
use crate::format::FormatPreference;
use crate::pipeline::EncodeRequest;
use crate::text::{keyword_matches, matches_keyword};

verus! {

/// The resize endpoint's query parameters, as the web layer hands them over:
/// a target size in whole kilobytes and an optional output-format word.
pub struct ResizeParams {
    pub target_size_kb: usize,
    pub output_format: Option<String>,
}

impl ResizeParams {
    /// The format wish the optional word stands for: `jpeg`/`jpg` and `png`
    /// (in any ASCII case) force a codec; anything else keeps the input's
    /// codec class.
    pub open spec fn spec_preference(&self) -> FormatPreference {
        match self.output_format {
            Option::None => FormatPreference::Auto,
            Option::Some(s) => if matches_keyword(s@, "jpeg"@) || matches_keyword(s@, "jpg"@) {
                FormatPreference::ForceLossy
            } else if matches_keyword(s@, "png"@) {
                FormatPreference::ForceLossless
            } else {
                FormatPreference::Auto
            },
        }
    }

    /// Resolves the optional output-format word.
    pub fn preference(&self) -> (r: FormatPreference)
        ensures
            r == self.spec_preference(),
    {
        match &self.output_format {
            None => FormatPreference::Auto,
            Some(s) => {
                let st = s.as_str();
                if keyword_matches(st, "jpeg") || keyword_matches(st, "jpg") {
                    FormatPreference::ForceLossy
                } else if keyword_matches(st, "png") {
                    FormatPreference::ForceLossless
                } else {
                    FormatPreference::Auto
                }
            },
        }
    }

    /// Builds the encode request: the byte budget is the kilobyte count
    /// times 1024. A zero size, or one whose byte count does not fit the
    /// machine word, is rejected rather than wrapped around.
    pub fn request(&self) -> (r: Option<EncodeRequest>)
        ensures
            r matches Some(req) ==> self.target_size_kb >= 1
                && req.target_bytes == self.target_size_kb * 1024
                && req.preference == self.spec_preference(),
            r is None <==> (self.target_size_kb == 0
                || self.target_size_kb * 1024 > usize::MAX),
    {
        if self.target_size_kb == 0 || self.target_size_kb > usize::MAX / 1024 {
            return None;
        }
        Some(
            EncodeRequest {
                target_bytes: self.target_size_kb * 1024,
                preference: self.preference(),
            },
        )
    }
}

/// The background-replacement endpoint's query parameters: an optional
/// requested background color.
pub struct BgChangeParams {
    pub target_color: Option<String>,
}

/// Whether the code point is an ASCII hexadecimal digit.
pub open spec fn is_hex_digit(c: char) -> bool {
    ||| 48 <= c as int <= 57
    ||| 65 <= c as int <= 70
    ||| 97 <= c as int <= 102
}

/// `h` marks the end of the run of leading `#` characters in `s`.
pub open spec fn is_hash_prefix_end(s: Seq<char>, h: int) -> bool {
    &&& 0 <= h <= s.len()
    &&& forall|j: int| 0 <= j < h ==> s[j] == '#'
    &&& (h == s.len() || s[h] != '#')
}

/// Whether, after the leading `#` run ends at `h`, the rest of `s` is a
/// six-digit hexadecimal color.
pub open spec fn is_hex_color_from(s: Seq<char>, h: int) -> bool {
    s.len() - h == 6 && forall|j: int| h <= j < s.len() ==> is_hex_digit(#[trigger] s[j])
}

/// The end of the leading `#` run is a single well-defined position.
proof fn lemma_hash_prefix_end_unique(s: Seq<char>, a: int, b: int)
    requires
        is_hash_prefix_end(s, a),
        is_hash_prefix_end(s, b),
    ensures
        a == b,
{
    if a < b {
        assert(s[a] == '#');
    }
    if b < a {
        assert(s[b] == '#');
    }
}

impl BgChangeParams {
    /// Validates the requested color: strips any leading `#` characters and
    /// accepts exactly six hexadecimal digits, returned without the prefix.
    /// Anything else — including an absent color — yields `None`, and the
    /// request proceeds without a replacement color.
    pub fn sanitized_color(&self) -> (r: Option<String>)
        ensures
            r matches Some(c) ==> (self.target_color matches Some(s)
                && exists|h: int| #[trigger] is_hash_prefix_end(s@, h)
                    && is_hex_color_from(s@, h) && c@ == s@.subrange(h, s@.len() as int)),
            r is None ==> (self.target_color matches Some(s) ==> forall|h: int|
                #[trigger] is_hash_prefix_end(s@, h) ==> !is_hex_color_from(s@, h)),
    {
        match self.target_color.as_ref() {
            Some(c) => sanitize_hex_color(c.as_str()),
            None => None,
        }
    }
}

/// Validates one color word: strips any leading `#` characters and accepts
/// exactly six hexadecimal digits, returned without the prefix.
pub fn sanitize_hex_color(s: &str) -> (r: Option<String>)
    ensures
        r matches Some(c) ==> exists|h: int| #[trigger] is_hash_prefix_end(s@, h)
            && is_hex_color_from(s@, h) && c@ == s@.subrange(h, s@.len() as int),
        r is None ==> forall|h: int| #[trigger] is_hash_prefix_end(s@, h)
            ==> !is_hex_color_from(s@, h),
{
    let n = s.unicode_len();
    let mut h: usize = 0;
    while h < n && s.get_char(h) == '#'
        invariant
            n == s@.len(),
            h <= n,
            forall|j: int| 0 <= j < h ==> s@[j] == '#',
        decreases n - h,
    {
        h = h + 1;
    }
    if n - h != 6 {
        proof {
            assert(is_hash_prefix_end(s@, h as int));
            assert forall|hp: int| #[trigger] is_hash_prefix_end(s@, hp)
                implies !is_hex_color_from(s@, hp) by {
                lemma_hash_prefix_end_unique(s@, hp, h as int);
            }
        }
        return None;
    }
    let mut j: usize = h;
    while j < n
        invariant
            n == s@.len(),
            h <= j <= n,
            is_hash_prefix_end(s@, h as int),
            forall|k: int| h <= k < j ==> is_hex_digit(#[trigger] s@[k]),
        decreases n - j,
    {
        let code = s.get_char(j) as u32;
        let digit = (code >= 48 && code <= 57) || (code >= 65 && code <= 70) || (code >= 97
            && code <= 102);
        if !digit {
            proof {
                assert(!is_hex_color_from(s@, h as int)) by {
                    assert(!is_hex_digit(s@[j as int]));
                }
                assert forall|hp: int| #[trigger] is_hash_prefix_end(s@, hp)
                    implies !is_hex_color_from(s@, hp) by {
                    lemma_hash_prefix_end_unique(s@, hp, h as int);
                }
            }
            return None;
        }
        j = j + 1;
    }
    let stripped = s.substring_char(h, n);
    Some(stripped.to_owned())
}

} // verus!
