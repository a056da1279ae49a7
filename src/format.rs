use vstd::prelude::*;
use crate::error::ConvertError;

verus! {

/// The container formats an image can be encoded to.
#[derive(Clone, Copy, Debug, PartialEq, Eq)]
pub enum OutputFormat {
    Png,
    Jpeg,
    Gif,
    WebP,
}

impl OutputFormat {
    /// Whether the format stores an alpha channel without compositing:
    /// only PNG is rendered onto a transparent surface.
    pub open spec fn keeps_transparency(self) -> bool {
        self == OutputFormat::Png
    }
}

/// Whether `c` is `lower` or its ASCII upper-case form.
pub open spec fn same_ignoring_case(c: char, lower: char) -> bool {
    c == lower || ('A' <= c && c <= 'Z' && (c as u32) + 32 == lower as u32)
}

/// Whether `s` equals `word` (written in lower case) ignoring ASCII case.
pub open spec fn equals_ignoring_case(s: Seq<char>, word: Seq<char>) -> bool {
    s.len() == word.len() && forall|i: int| 0 <= i < s.len() ==> same_ignoring_case(#[trigger] s[i], word[i])
}

/// The format that a name selects, case-insensitively: `png`, `jpg` or
/// `jpeg`, `gif`, `webp`.
pub open spec fn format_named(s: Seq<char>) -> Option<OutputFormat> {
    if equals_ignoring_case(s, seq!['p', 'n', 'g']) {
        Some(OutputFormat::Png)
    } else if equals_ignoring_case(s, seq!['j', 'p', 'g']) || equals_ignoring_case(s, seq!['j', 'p', 'e', 'g']) {
        Some(OutputFormat::Jpeg)
    } else if equals_ignoring_case(s, seq!['g', 'i', 'f']) {
        Some(OutputFormat::Gif)
    } else if equals_ignoring_case(s, seq!['w', 'e', 'b', 'p']) {
        Some(OutputFormat::WebP)
    } else {
        None
    }
}

/// `jpg` and `jpeg`, in any case, select the same encoder.
pub proof fn lemma_jpg_and_jpeg_agree(a: Seq<char>, b: Seq<char>)
    requires
        equals_ignoring_case(a, seq!['j', 'p', 'g']),
        equals_ignoring_case(b, seq!['j', 'p', 'e', 'g']),
    ensures
        format_named(a) == Some(OutputFormat::Jpeg),
        format_named(b) == Some(OutputFormat::Jpeg),
{
    assert(!equals_ignoring_case(a, seq!['p', 'n', 'g'])) by {
        assert(!same_ignoring_case(a[0], 'p'));
    }
    assert(!equals_ignoring_case(b, seq!['p', 'n', 'g']));
}

fn same_char_ignoring_case(c: char, lower: char) -> (r: bool)
    ensures
        r == same_ignoring_case(c, lower),
{
    c == lower || ('A' <= c && c <= 'Z' && (c as u32) + 32 == lower as u32)
}

fn matches_word(s: &str, word: &[char]) -> (r: bool)
    ensures
        r == equals_ignoring_case(s@, word@),
{
    let n = s.unicode_len();
    if n != word.len() {
        return false;
    }
    let mut i: usize = 0;
    while i < n
        invariant
            n == s@.len() == word@.len(),
            i <= n,
            forall|k: int| 0 <= k < i ==> same_ignoring_case(#[trigger] s@[k], word@[k]),
        decreases n - i,
    {
        if !same_char_ignoring_case(s.get_char(i), word[i]) {
            return false;
        }
        i = i + 1;
    }
    true
}

/// Selects the output format by name, ignoring ASCII case; any other name is
/// an `UnsupportedFormat` error that carries it.
pub fn parse_format(name: &str) -> (r: Result<OutputFormat, ConvertError>)
    ensures
        match format_named(name@) {
            Some(f) => r == Ok::<OutputFormat, ConvertError>(f),
            None => r matches Err(ConvertError::UnsupportedFormat(v)) && v@ == name@,
        },
{
    let png: [char; 3] = ['p', 'n', 'g'];
    let jpg: [char; 3] = ['j', 'p', 'g'];
    let jpeg: [char; 4] = ['j', 'p', 'e', 'g'];
    let gif: [char; 3] = ['g', 'i', 'f'];
    let webp: [char; 4] = ['w', 'e', 'b', 'p'];
    assert(png@ == seq!['p', 'n', 'g']);
    assert(jpg@ == seq!['j', 'p', 'g']);
    assert(jpeg@ == seq!['j', 'p', 'e', 'g']);
    assert(gif@ == seq!['g', 'i', 'f']);
    assert(webp@ == seq!['w', 'e', 'b', 'p']);
    if matches_word(name, &png) {
        Ok(OutputFormat::Png)
    } else if matches_word(name, &jpg) || matches_word(name, &jpeg) {
        Ok(OutputFormat::Jpeg)
    } else if matches_word(name, &gif) {
        Ok(OutputFormat::Gif)
    } else if matches_word(name, &webp) {
        Ok(OutputFormat::WebP)
    } else {
        Err(ConvertError::UnsupportedFormat(name.to_string()))
    }
}

} // verus!
