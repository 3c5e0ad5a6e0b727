//! Text helpers: Unicode whitespace trimming as `str::trim` performs it.
use vstd::prelude::*;

verus! {

/// Whether `c` has the Unicode `White_Space` property, which is what
/// `char::is_whitespace` tests.
pub open spec fn is_white_space(c: char) -> bool {
    let u = c as u32;
    ||| 0x9 <= u <= 0xD
    ||| u == 0x20
    ||| u == 0x85
    ||| u == 0xA0
    ||| u == 0x1680
    ||| 0x2000 <= u <= 0x200A
    ||| u == 0x2028
    ||| u == 0x2029
    ||| u == 0x202F
    ||| u == 0x205F
    ||| u == 0x3000
}

/// `s` without its leading whitespace.
pub open spec fn trim_start(s: Seq<char>) -> Seq<char>
    decreases s.len(),
{
    if s.len() > 0 && is_white_space(s[0]) {
        trim_start(s.drop_first())
    } else {
        s
    }
}

/// `s` without its trailing whitespace.
pub open spec fn trim_end(s: Seq<char>) -> Seq<char>
    decreases s.len(),
{
    if s.len() > 0 && is_white_space(s.last()) {
        trim_end(s.drop_last())
    } else {
        s
    }
}

/// `s` without leading and trailing whitespace.
pub open spec fn trim_spec(s: Seq<char>) -> Seq<char> {
    trim_end(trim_start(s))
}

/// `str::trim`. Its documentation says that it returns the string slice with
/// leading and trailing whitespace removed, whitespace being the characters
/// with the Unicode `White_Space` property; the contract claims exactly that.
#[verifier::external_body]
pub(crate) fn trim_str(s: &str) -> (result: &str)
    ensures
        result@ == trim_spec(s@),
{
    s.trim()
}

proof fn lemma_trim_start_no_leading_space(s: Seq<char>)
    ensures
        trim_start(s).len() > 0 ==> !is_white_space(trim_start(s)[0]),
        trim_start(s).len() <= s.len(),
    decreases s.len(),
{
    if s.len() > 0 && is_white_space(s[0]) {
        lemma_trim_start_no_leading_space(s.drop_first());
    }
}

proof fn lemma_trim_end_keeps_first(s: Seq<char>)
    ensures
        trim_end(s).len() <= s.len(),
        trim_end(s) =~= s.take(trim_end(s).len() as int),
        trim_end(s).len() > 0 ==> !is_white_space(trim_end(s).last()),
    decreases s.len(),
{
    if s.len() > 0 && is_white_space(s.last()) {
        lemma_trim_end_keeps_first(s.drop_last());
        assert(s.drop_last().take(trim_end(s).len() as int) =~= s.take(trim_end(s).len() as int));
    }
}

/// Trimmed text neither starts nor ends with whitespace.
pub proof fn lemma_trimmed_has_no_outer_space(s: Seq<char>)
    ensures
        trim_spec(s).len() > 0 ==> !is_white_space(trim_spec(s)[0]) && !is_white_space(
            trim_spec(s).last(),
        ),
{
    lemma_trim_start_no_leading_space(s);
    lemma_trim_end_keeps_first(trim_start(s));
}

/// The pieces of `s` between commas, as `str::split(',')` yields them: one
/// more piece than there are commas, possibly empty ones.
pub open spec fn split_on_commas(s: Seq<char>) -> Seq<Seq<char>>
    decreases s.len(),
{
    if s.len() == 0 {
        seq![Seq::<char>::empty()]
    } else {
        let prev = split_on_commas(s.drop_last());
        if s.last() == ',' {
            prev.push(Seq::<char>::empty())
        } else {
            prev.update(prev.len() - 1, prev.last().push(s.last()))
        }
    }
}

/// `str::split(',')`, collected. The pieces are the maximal comma-free runs of
/// `s`, in order, so there is one more piece than there are commas.
#[verifier::external_body]
pub(crate) fn split_commas(s: &str) -> (parts: Vec<&str>)
    ensures
        parts@.map_values(|p: &str| p@) == split_on_commas(s@),
{
    s.split(',').collect()
}

/// `str::strip_prefix('#')`: the rest of `s` when it starts with `#`.
#[verifier::external_body]
pub(crate) fn strip_hash(s: &str) -> (rest: Option<&str>)
    ensures
        match rest {
            Some(r) => s@.len() > 0 && s@[0] == '#' && r@ == s@.drop_first(),
            None => !(s@.len() > 0 && s@[0] == '#'),
        },
{
    s.strip_prefix('#')
}

/// Whether `c` is a hexadecimal digit, in either case.
pub open spec fn is_hex_digit(c: char) -> bool {
    ('0' <= c <= '9') || ('a' <= c <= 'f') || ('A' <= c <= 'F')
}

/// The value of a hexadecimal digit.
pub open spec fn hex_digit_value(c: char) -> nat {
    if '0' <= c <= '9' {
        (c as u32 - '0' as u32) as nat
    } else if 'a' <= c <= 'f' {
        (c as u32 - 'a' as u32 + 10) as nat
    } else {
        (c as u32 - 'A' as u32 + 10) as nat
    }
}

/// The value of a run of hexadecimal digits, most significant first.
pub open spec fn hex_value(digits: Seq<char>) -> nat
    decreases digits.len(),
{
    if digits.len() == 0 {
        0
    } else {
        hex_value(digits.drop_last()) * 16 + hex_digit_value(digits.last())
    }
}

/// What `u8::from_str_radix(s, 16)` accepts: an optional `+` followed by at
/// least one hexadecimal digit, with a value that fits in a byte.
pub open spec fn spec_parse_hex_u8(s: Seq<char>) -> Option<u8> {
    let digits = if s.len() > 0 && s[0] == '+' { s.drop_first() } else { s };
    if digits.len() > 0 && (forall|i: int| 0 <= i < digits.len() ==> is_hex_digit(#[trigger] digits[i]))
        && hex_value(digits) <= 255 {
        Some(hex_value(digits) as u8)
    } else {
        None
    }
}

/// `u8::from_str_radix(s, 16)`, with the error dropped. Its documentation
/// accepts an optional `+` sign followed by digits of the radix, and reports an
/// error for an empty text, any other character, or a value above 255.
#[verifier::external_body]
pub(crate) fn parse_hex_u8(s: &str) -> (value: Option<u8>)
    ensures
        value == spec_parse_hex_u8(s@),
{
    u8::from_str_radix(s, 16).ok()
}

/// The text `str::to_lowercase` makes of `s`: every character replaced by its
/// Unicode lower-case mapping (a function of the text alone).
pub uninterp spec fn lowercase(s: Seq<char>) -> Seq<char>;

/// `str::to_lowercase`. Its result is named, not spelled out: the Unicode
/// case tables take pages.
#[verifier::external_body]
pub(crate) fn to_lowercase_str(s: &str) -> (result: String)
    ensures
        result@ == lowercase(s@),
{
    s.to_lowercase()
}

/// Whether `needle` occurs in `haystack` as a run of consecutive characters.
pub open spec fn contains_seq(haystack: Seq<char>, needle: Seq<char>) -> bool {
    exists|i: int|
        0 <= i && i + needle.len() <= haystack.len() && #[trigger] haystack.subrange(
            i,
            i + needle.len(),
        ) == needle
}

/// `str::contains` with a text pattern: whether `needle` occurs in `haystack`
/// (an empty needle always does).
#[verifier::external_body]
pub(crate) fn str_contains(haystack: &str, needle: &str) -> (result: bool)
    ensures
        result == contains_seq(haystack@, needle@),
{
    haystack.contains(needle)
}

} // verus!
