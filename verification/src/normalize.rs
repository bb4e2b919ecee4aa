//! The path normalizer: from a resource identifier as a client wrote it to the
//! canonical key of the resource and to its place on disk.
//!
//! Normalizing is total and pure. A key uses `/` between its segments whatever
//! the platform; only the absolute path uses the platform's separator.

use vstd::prelude::*;
use crate::text::{chars_of, push_char, string_of};

verus! {

/// `s` with every backslash turned into a forward slash.
pub open spec fn with_forward_slashes(s: Seq<char>) -> Seq<char> {
    Seq::new(s.len(), |i: int| if s[i] == '\\' { '/' } else { s[i] })
}

/// The index of the first `c` in `s`, or the length of `s` where there is none.
pub open spec fn position_of(s: Seq<char>, c: char) -> nat
    decreases s.len(),
{
    if s.len() == 0 || s[0] == c {
        0
    } else {
        1 + position_of(s.drop_first(), c)
    }
}

/// `s` cut before its first `?`: a query string is no part of a key.
pub open spec fn without_query(s: Seq<char>) -> Seq<char> {
    s.take(position_of(s, '?') as int)
}

/// `s` without `prefix` in front, or `s` itself where it does not start with it.
pub open spec fn without_prefix(s: Seq<char>, prefix: Seq<char>) -> Seq<char> {
    if prefix.is_prefix_of(s) {
        s.skip(prefix.len() as int)
    } else {
        s
    }
}

/// How many times `c` stands at the front of `s` before any other character.
pub open spec fn leading_run(s: Seq<char>, c: char) -> nat
    decreases s.len(),
{
    if s.len() > 0 && s[0] == c {
        1 + leading_run(s.drop_first(), c)
    } else {
        0
    }
}

/// `s` without the run of `c` at its front.
pub open spec fn without_leading(s: Seq<char>, c: char) -> Seq<char> {
    s.skip(leading_run(s, c) as int)
}

/// The segment that clients may put in front of a key and that the cache drops.
pub open spec fn assets_prefix() -> Seq<char> {
    "assets/"@
}

/// The key of the resource that `raw` names: backslashes become slashes, the
/// query string goes, then one leading `assets/`, then every leading slash.
pub open spec fn normalized_key(raw: Seq<char>) -> Seq<char> {
    without_leading(
        without_prefix(without_query(with_forward_slashes(raw)), assets_prefix()),
        '/',
    )
}

/// `key` with the platform's separator in place of each `/`.
pub open spec fn with_separator(key: Seq<char>, separator: char) -> Seq<char> {
    Seq::new(key.len(), |i: int| if key[i] == '/' { separator } else { key[i] })
}

/// `relative` appended to the directory `base`, with one separator between the
/// two unless `base` is empty or already ends in one.
pub open spec fn joined(base: Seq<char>, relative: Seq<char>, separator: char) -> Seq<char> {
    if base.len() == 0 {
        relative
    } else if base.last() == separator || base.last() == '/' {
        base + relative
    } else {
        base.push(separator) + relative
    }
}

/// Where the resource `key` lives on disk below `base_dir`.
pub open spec fn absolute_path(base_dir: Seq<char>, key: Seq<char>, separator: char) -> Seq<char> {
    joined(base_dir, with_separator(key, separator), separator)
}

/// `position_of` is the one index before which no `c` stands and at which one
/// does, unless it is the end.
pub proof fn lemma_position_of(s: Seq<char>, c: char, n: int)
    requires
        0 <= n <= s.len(),
        forall|j: int| 0 <= j < n ==> s[j] != c,
        n < s.len() ==> s[n] == c,
    ensures
        position_of(s, c) == n,
    decreases s.len(),
{
    if n > 0 {
        let rest = s.drop_first();
        assert forall|j: int| 0 <= j < n - 1 implies rest[j] != c by {
            assert(rest[j] == s[j + 1]);
        }
        lemma_position_of(rest, c, n - 1);
    }
}

/// `position_of` never passes the end, finds `c` where it stops early, and
/// passes over nothing but other characters.
pub proof fn lemma_position_of_bounds(s: Seq<char>, c: char)
    ensures
        position_of(s, c) <= s.len(),
        position_of(s, c) < s.len() ==> s[position_of(s, c) as int] == c,
        forall|j: int| 0 <= j < position_of(s, c) ==> s[j] != c,
    decreases s.len(),
{
    if s.len() > 0 && s[0] != c {
        let rest = s.drop_first();
        lemma_position_of_bounds(rest, c);
        assert forall|j: int| 0 <= j < position_of(s, c) implies s[j] != c by {
            if j > 0 {
                assert(s[j] == rest[j - 1]);
            }
        }
    }
}

/// `leading_run` is the length of the longest prefix made of `c` alone.
pub proof fn lemma_leading_run(s: Seq<char>, c: char, n: int)
    requires
        0 <= n <= s.len(),
        forall|j: int| 0 <= j < n ==> s[j] == c,
        n < s.len() ==> s[n] != c,
    ensures
        leading_run(s, c) == n,
    decreases s.len(),
{
    if n > 0 {
        let rest = s.drop_first();
        assert forall|j: int| 0 <= j < n - 1 implies rest[j] == c by {
            assert(rest[j] == s[j + 1]);
        }
        lemma_leading_run(rest, c, n - 1);
    }
}

/// `leading_run` stays within `s`, covers only `c`, and stops at something else.
pub proof fn lemma_leading_run_bounds(s: Seq<char>, c: char)
    ensures
        leading_run(s, c) <= s.len(),
        leading_run(s, c) < s.len() ==> s[leading_run(s, c) as int] != c,
        forall|j: int| 0 <= j < leading_run(s, c) ==> s[j] == c,
    decreases s.len(),
{
    if s.len() > 0 && s[0] == c {
        let rest = s.drop_first();
        lemma_leading_run_bounds(rest, c);
        assert forall|j: int| 0 <= j < leading_run(s, c) implies s[j] == c by {
            if j > 0 {
                assert(s[j] == rest[j - 1]);
            }
        }
    }
}

/// A key is in canonical form: it holds no backslash and no `?`, and it does
/// not start with a slash.
pub proof fn key_is_canonical(raw: Seq<char>)
    ensures
        !normalized_key(raw).contains('\\'),
        !normalized_key(raw).contains('?'),
        normalized_key(raw).len() > 0 ==> normalized_key(raw)[0] != '/',
{
    let slashed = with_forward_slashes(raw);
    let cut = without_query(slashed);
    let inner = without_prefix(cut, assets_prefix());
    let key = normalized_key(raw);
    lemma_position_of_bounds(slashed, '?');
    lemma_leading_run_bounds(inner, '/');
    assert forall|i: int| 0 <= i < cut.len() implies cut[i] != '\\' && cut[i] != '?' by {
        assert(cut[i] == slashed[i]);
    }
    assert forall|i: int| 0 <= i < inner.len() implies inner[i] != '\\' && inner[i] != '?' by {
        if assets_prefix().is_prefix_of(cut) {
            assert(inner[i] == cut[i + assets_prefix().len()]);
        }
    }
    assert forall|i: int| 0 <= i < key.len() implies key[i] != '\\' && key[i] != '?' by {
        assert(key[i] == inner[i + leading_run(inner, '/')]);
    }
    if key.len() > 0 {
        assert(key[0] == inner[leading_run(inner, '/') as int]);
    }
}

/// The style of the slashes does not matter: an identifier written with
/// backslashes has the key of the same identifier written with slashes.
pub proof fn backslash_style_is_irrelevant(raw: Seq<char>)
    ensures
        normalized_key(with_forward_slashes(raw)) == normalized_key(raw),
{
    assert(with_forward_slashes(with_forward_slashes(raw)) =~= with_forward_slashes(raw));
}

/// A query string does not matter: whatever follows a `?` behind an
/// identifier, the key is that of the identifier alone.
pub proof fn query_suffix_is_irrelevant(raw: Seq<char>, query: Seq<char>)
    requires
        !raw.contains('?'),
    ensures
        normalized_key(raw + seq!['?'] + query) == normalized_key(raw),
{
    let plain = with_forward_slashes(raw);
    let asked = with_forward_slashes(raw + seq!['?'] + query);
    assert forall|j: int| 0 <= j < raw.len() implies plain[j] != '?' by {
        assert(raw.contains(raw[j]));
    }
    assert forall|j: int| 0 <= j < raw.len() implies asked[j] != '?' by {
        assert((raw + seq!['?'] + query)[j] == raw[j]);
        assert(raw.contains(raw[j]));
    }
    assert(asked[raw.len() as int] == '?') by {
        assert((raw + seq!['?'] + query)[raw.len() as int] == '?');
    }
    lemma_position_of(plain, '?', raw.len() as int);
    lemma_position_of(asked, '?', raw.len() as int);
    assert(without_query(asked) =~= without_query(plain));
}

/// A leading slash does not matter: with or without one in front, an
/// identifier has the same key, unless it starts with the `assets/` segment,
/// which is dropped only where it stands first.
pub proof fn leading_slash_is_irrelevant(raw: Seq<char>)
    requires
        !assets_prefix().is_prefix_of(without_query(with_forward_slashes(raw))),
    ensures
        normalized_key(seq!['/'] + raw) == normalized_key(raw),
{
    reveal_strlit("assets/");
    let plain = with_forward_slashes(raw);
    let rooted = with_forward_slashes(seq!['/'] + raw);
    assert(rooted =~= seq!['/'] + plain);
    assert(rooted.drop_first() =~= plain);
    let cut = without_query(plain);
    let rooted_cut = without_query(rooted);
    lemma_position_of_bounds(plain, '?');
    assert(rooted_cut =~= seq!['/'] + cut);
    assert(!assets_prefix().is_prefix_of(rooted_cut)) by {
        if assets_prefix().is_prefix_of(rooted_cut) {
            assert(rooted_cut.subrange(0, assets_prefix().len() as int)[0] == assets_prefix()[0]);
        }
    }
    assert(rooted_cut.drop_first() =~= cut);
    assert(rooted_cut[0] == '/');
    assert(leading_run(rooted_cut, '/') == 1 + leading_run(cut, '/'));
    lemma_leading_run_bounds(cut, '/');
    assert(without_leading(rooted_cut, '/') =~= without_leading(cut, '/'));
}

/// The index of the first `c` among `chars`, or their number where there is none.
fn find_char(chars: &Vec<char>, c: char) -> (n: usize)
    ensures
        n == position_of(chars@, c),
        n <= chars.len(),
{
    let mut n: usize = 0;
    while n < chars.len() && chars[n] != c
        invariant
            n <= chars.len(),
            forall|j: int| 0 <= j < n ==> chars@[j] != c,
        decreases chars.len() - n,
    {
        n += 1;
    }
    proof {
        lemma_position_of(chars@, c, n as int);
    }
    n
}

/// Whether the first `end` of `chars` start with `prefix`.
pub(crate) fn has_prefix(chars: &Vec<char>, end: usize, prefix: &Vec<char>) -> (b: bool)
    requires
        end <= chars.len(),
    ensures
        b == prefix@.is_prefix_of(chars@.take(end as int)),
{
    if prefix.len() > end {
        return false;
    }
    let mut i: usize = 0;
    while i < prefix.len()
        invariant
            i <= prefix.len() <= end <= chars.len(),
            forall|j: int| 0 <= j < i ==> prefix@[j] == chars@[j],
        decreases prefix.len() - i,
    {
        if prefix[i] != chars[i] {
            proof {
                let head = chars@.take(end as int).subrange(0, prefix@.len() as int);
                assert(head[i as int] == chars@[i as int]);
            }
            return false;
        }
        i += 1;
    }
    assert(prefix@ =~= chars@.take(end as int).subrange(0, prefix@.len() as int));
    true
}

/// The first index in `from..to` at which `chars` holds something other than
/// `c`, or `to`.
fn skip_run(chars: &Vec<char>, from: usize, to: usize, c: char) -> (n: usize)
    requires
        from <= to <= chars.len(),
    ensures
        from <= n <= to,
        n - from == leading_run(chars@.subrange(from as int, to as int), c),
{
    let mut n: usize = from;
    while n < to && chars[n] == c
        invariant
            from <= n <= to <= chars.len(),
            forall|j: int| from <= j < n ==> chars@[j] == c,
        decreases to - n,
    {
        n += 1;
    }
    proof {
        let window = chars@.subrange(from as int, to as int);
        assert forall|j: int| 0 <= j < n - from implies window[j] == c by {
            assert(window[j] == chars@[from + j]);
        }
        lemma_leading_run(window, c, n - from);
    }
    n
}

/// Normalizes a resource identifier to its key. Never fails.
pub fn normalize_key(raw: &str) -> (key: String)
    ensures
        key@ == normalized_key(raw@),
{
    let source = chars_of(raw);
    let mut chars: Vec<char> = Vec::new();
    let mut i: usize = 0;
    while i < source.len()
        invariant
            i <= source.len(),
            chars@ == with_forward_slashes(source@).take(i as int),
        decreases source.len() - i,
    {
        let c = source[i];
        chars.push(if c == '\\' { '/' } else { c });
        i += 1;
        assert(chars@ =~= with_forward_slashes(source@).take(i as int));
    }
    assert(chars@ =~= with_forward_slashes(raw@));
    let end = find_char(&chars, '?');
    let prefix = chars_of("assets/");
    let after_prefix = if has_prefix(&chars, end, &prefix) { prefix.len() } else { 0 };
    let start = skip_run(&chars, after_prefix, end, '/');
    proof {
        let cut = without_query(chars@);
        assert(cut == chars@.take(end as int));
        let inner = without_prefix(cut, assets_prefix());
        assert(inner =~= chars@.subrange(after_prefix as int, end as int));
        assert(without_leading(inner, '/') =~= chars@.subrange(start as int, end as int));
    }
    string_of(&chars, start, end)
}

/// Builds the absolute path of the resource `key` below `base_dir`.
pub fn absolute_path_of(base_dir: &str, key: &str, separator: char) -> (path: String)
    ensures
        path@ == absolute_path(base_dir@, key@, separator),
{
    let base = chars_of(base_dir);
    let relative = chars_of(key);
    let mut path = string_of(&base, 0, base.len());
    assert(path@ =~= base_dir@);
    if base.len() > 0 {
        let last = base[base.len() - 1];
        if last != separator && last != '/' {
            push_char(&mut path, separator);
        }
    }
    let ghost stem = path@;
    let mut i: usize = 0;
    while i < relative.len()
        invariant
            i <= relative.len(),
            relative@ == key@,
            path@ == stem + with_separator(key@, separator).take(i as int),
        decreases relative.len() - i,
    {
        let c = relative[i];
        push_char(&mut path, if c == '/' { separator } else { c });
        i += 1;
        assert(path@ =~= stem + with_separator(key@, separator).take(i as int));
    }
    assert(path@ =~= absolute_path(base_dir@, key@, separator));
    path
}

} // verus!
