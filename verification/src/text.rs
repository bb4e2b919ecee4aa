//! Character-level helpers shared by the rest of the library.

use vstd::prelude::*;
use vstd::std_specs::iter::IteratorSpec;

verus! {

broadcast use vstd::string::group_string_axioms;

/// `String::push`: appends `c` to the end of `s`.
#[verifier::external_body]
pub(crate) fn push_char(s: &mut String, c: char)
    ensures
        final(s)@ == old(s)@.push(c),
{
    s.push(c);
}

/// What `str::to_lowercase` makes of a string: its lowercase equivalent under
/// the Unicode case mappings.
pub uninterp spec fn lowercase(s: Seq<char>) -> Seq<char>;

/// `str::to_lowercase`: the lowercase equivalent of `s`, which depends on the
/// characters of `s` alone.
#[verifier::external_body]
pub(crate) fn to_lowercase(s: &str) -> (lower: String)
    ensures
        lower@ == lowercase(s@),
{
    s.to_lowercase()
}

/// What `urlencoding::decode` makes of a string: the text whose UTF-8 bytes
/// are the bytes of the string with every `%` and two hex digits replaced by
/// the byte they spell, or nothing where those bytes are no UTF-8.
pub uninterp spec fn percent_decoded(s: Seq<char>) -> Option<Seq<char>>;

/// `urlencoding::decode`: `s` with its percent escapes resolved, or nothing
/// where the result would not be UTF-8. The result depends on the characters
/// of `s` alone, and a string without `%` comes back as it is.
#[verifier::external_body]
pub(crate) fn percent_decode(s: &str) -> (decoded: Option<String>)
    ensures
        decoded.deep_view() == percent_decoded(s@),
        !s@.contains('%') ==> decoded.deep_view() == Some(s@),
{
    urlencoding::decode(s).ok().map(|text| text.into_owned())
}

/// What group `group` of the leftmost match of the regular expression
/// `pattern` in `haystack` holds: nothing where `pattern` is no valid
/// expression, where it matches nowhere, where it has no such group, or where
/// the group took no part in the match.
pub uninterp spec fn captured(pattern: Seq<char>, haystack: Seq<char>, group: nat) -> Option<
    Seq<char>,
>;

/// `Regex::captures`, on the expression that `Regex::new` compiles from
/// `pattern`: the text of group `group` of the leftmost match in `haystack`,
/// as `Captures::get` and `Match::as_str` give it. The result depends on the
/// three arguments alone.
#[verifier::external_body]
pub(crate) fn capture(pattern: &str, haystack: &str, group: usize) -> (text: Option<String>)
    ensures
        text.deep_view() == captured(pattern@, haystack@, group as nat),
{
    let expression = regex::Regex::new(pattern).ok()?;
    let found = expression.captures(haystack)?;
    found.get(group).map(|part| part.as_str().to_owned())
}

/// `Path::extension`: the part of the file name of `path` behind its last dot,
/// where the file name has one that is not its first character. What counts as
/// the file name depends on the platform, so nothing is claimed of the result.
#[verifier::external_body]
pub(crate) fn path_extension(path: &str) -> Option<String> {
    std::path::Path::new(path).extension().and_then(|found| found.to_str()).map(
        |found| found.to_owned(),
    )
}

/// `Path::with_extension`: `path` with the extension of its file name replaced
/// by `extension`. What counts as a file name depends on the platform, so
/// nothing is claimed of the result. An extension with a path separator in it
/// makes the call panic and is ruled out.
#[verifier::external_body]
pub(crate) fn with_extension(path: &str, extension: &str) -> String
    requires
        !extension@.contains('/'),
        !extension@.contains('\\'),
{
    std::path::Path::new(path).with_extension(extension).to_string_lossy().into_owned()
}

/// The characters of `s`, in order.
pub fn chars_of(s: &str) -> (chars: Vec<char>)
    ensures
        chars@ == s@,
{
    let mut chars: Vec<char> = Vec::new();
    for c in it: s.chars()
        invariant
            chars@ == s@.take(it.index()),
            it.seq() == s@,
    {
        chars.push(c);
    }
    chars
}

/// Whether `a` and `b` hold the same characters.
pub fn same_text(a: &str, b: &str) -> (same: bool)
    ensures
        same == (a@ == b@),
{
    let left = chars_of(a);
    let right = chars_of(b);
    if left.len() != right.len() {
        return false;
    }
    let mut i: usize = 0;
    while i < left.len()
        invariant
            i <= left.len(),
            left.len() == right.len(),
            left@ == a@,
            right@ == b@,
            forall|j: int| 0 <= j < i ==> left@[j] == right@[j],
        decreases left.len() - i,
    {
        if left[i] != right[i] {
            return false;
        }
        i += 1;
    }
    assert(left@ =~= right@);
    true
}

/// Whether `s` starts with `prefix`.
pub fn starts_with(s: &str, prefix: &str) -> (starts: bool)
    ensures
        starts == prefix@.is_prefix_of(s@),
{
    let chars = chars_of(s);
    let wanted = chars_of(prefix);
    if wanted.len() > chars.len() {
        return false;
    }
    let mut i: usize = 0;
    while i < wanted.len()
        invariant
            i <= wanted.len() <= chars.len(),
            chars@ == s@,
            wanted@ == prefix@,
            forall|j: int| 0 <= j < i ==> wanted@[j] == chars@[j],
        decreases wanted.len() - i,
    {
        if wanted[i] != chars[i] {
            assert(chars@.subrange(0, wanted@.len() as int)[i as int] == chars@[i as int]);
            return false;
        }
        i += 1;
    }
    assert(wanted@ =~= chars@.subrange(0, wanted@.len() as int));
    true
}

/// The string made of `chars[from..to]`.
pub fn string_of(chars: &Vec<char>, from: usize, to: usize) -> (s: String)
    requires
        from <= to <= chars.len(),
    ensures
        s@ == chars@.subrange(from as int, to as int),
{
    let mut s = String::new();
    let mut i: usize = from;
    while i < to
        invariant
            from <= i <= to <= chars.len(),
            s@ == chars@.subrange(from as int, i as int),
        decreases to - i,
    {
        push_char(&mut s, chars[i]);
        i += 1;
    }
    s
}

} // verus!
