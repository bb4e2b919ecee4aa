//! The local existence probe: whether a resource is on disk already, under the
//! name asked for or under one that differs from it in case alone.
//!
//! The caller looks at the disk and reports what it saw as a `PathProbe`; the
//! decision is taken here.

use vstd::prelude::*;
use crate::text::{lowercase, to_lowercase};

verus! {

/// One entry of a directory listing.
#[derive(Debug)]
pub struct Sibling {
    /// The entry's file name, where it has one that is valid Unicode.
    pub name: Option<String>,
    /// The entry's full path.
    pub path: String,
}

/// What the disk holds at and around one absolute path.
#[derive(Debug)]
pub struct PathProbe {
    /// Whether something exists at the path itself.
    pub exists: bool,
    /// The canonical form of the path, where it can be resolved to something
    /// that exists.
    pub canonical: Option<String>,
    /// The file name of the path, where it has one that is valid Unicode.
    pub file_name: Option<String>,
    /// The entries of the path's parent directory in listing order, where the
    /// path has a parent and that directory can be read.
    pub siblings: Option<Vec<Sibling>>,
}

/// The name that directory entries are compared with: the lowercase of the
/// path's file name, or of the empty string where it has none.
pub open spec fn target_name(file_name: Option<String>) -> Seq<char> {
    match file_name {
        Some(name) => lowercase(name@),
        None => lowercase(Seq::<char>::empty()),
    }
}

/// Whether `entry` carries the wanted name, case aside.
pub open spec fn names_match(entry: Sibling, target: Seq<char>) -> bool {
    entry.name matches Some(name) && lowercase(name@) == target
}

/// The index of the first of `entries` that carries the wanted name, or their
/// number where none does.
pub open spec fn first_match(entries: Seq<Sibling>, target: Seq<char>) -> nat
    decreases entries.len(),
{
    if entries.len() == 0 || names_match(entries[0], target) {
        0
    } else {
        1 + first_match(entries.drop_first(), target)
    }
}

/// Where the resource asked for at `path` is found on disk, if anywhere: at
/// `path` itself, else at its canonical form, else at the first entry of its
/// parent directory whose name equals its own but for case.
pub open spec fn resolved(path: Seq<char>, probe: PathProbe) -> Option<Seq<char>> {
    if probe.exists {
        Some(path)
    } else if let Some(canonical) = probe.canonical {
        Some(canonical@)
    } else if let Some(entries) = probe.siblings {
        let at = first_match(entries@, target_name(probe.file_name));
        if at < entries@.len() {
            Some(entries@[at as int].path@)
        } else {
            None
        }
    } else {
        None
    }
}

/// `first_match` is the one index before which no entry matches and at which
/// one does, unless it is the end.
pub proof fn lemma_first_match(entries: Seq<Sibling>, target: Seq<char>, n: int)
    requires
        0 <= n <= entries.len(),
        forall|j: int| 0 <= j < n ==> !names_match(entries[j], target),
        n < entries.len() ==> names_match(entries[n], target),
    ensures
        first_match(entries, target) == n,
    decreases entries.len(),
{
    if n > 0 {
        let rest = entries.drop_first();
        assert forall|j: int| 0 <= j < n - 1 implies !names_match(rest[j], target) by {
            assert(rest[j] == entries[j + 1]);
        }
        lemma_first_match(rest, target, n - 1);
    }
}

/// `first_match` never passes the end, stops early only at a match, and passes
/// over nothing but entries that do not match.
pub proof fn lemma_first_match_bounds(entries: Seq<Sibling>, target: Seq<char>)
    ensures
        first_match(entries, target) <= entries.len(),
        first_match(entries, target) < entries.len() ==> names_match(
            entries[first_match(entries, target) as int],
            target,
        ),
        forall|j: int| 0 <= j < first_match(entries, target) ==> !names_match(entries[j], target),
    decreases entries.len(),
{
    if entries.len() > 0 && !names_match(entries[0], target) {
        let rest = entries.drop_first();
        lemma_first_match_bounds(rest, target);
        assert forall|j: int| 0 <= j < first_match(entries, target) implies !names_match(
            entries[j],
            target,
        ) by {
            if j > 0 {
                assert(entries[j] == rest[j - 1]);
            }
        }
    }
}

/// Case-insensitive resolution: a resource that is not on disk under the name
/// asked for, but whose directory lists an entry of the same name in another
/// case, is found, at the first such entry.
pub proof fn case_variant_is_found(path: Seq<char>, probe: PathProbe, at: int)
    requires
        !probe.exists,
        probe.canonical is None,
        probe.siblings is Some,
        0 <= at < probe.siblings->0@.len(),
        names_match(probe.siblings->0@[at], target_name(probe.file_name)),
    ensures
        resolved(path, probe) is Some,
        exists|first: int|
            0 <= first <= at && resolved(path, probe) == Some(
                (#[trigger] probe.siblings->0@[first]).path@,
            ) && names_match(probe.siblings->0@[first], target_name(probe.file_name)),
{
    let entries = probe.siblings->0@;
    let target = target_name(probe.file_name);
    lemma_first_match_bounds(entries, target);
    let first = first_match(entries, target) as int;
    assert(names_match(entries[at], target));
    assert(first <= at);
    assert(resolved(path, probe) == Some(entries[first].path@));
}

/// Decides from a probe where the resource asked for at `abs_path` is on disk.
pub fn find_existing_case_insensitive(abs_path: &str, probe: &PathProbe) -> (found: Option<String>)
    ensures
        found.deep_view() == resolved(abs_path@, *probe),
{
    if probe.exists {
        return Some(abs_path.to_owned());
    }
    if let Some(canonical) = &probe.canonical {
        return Some(canonical.clone());
    }
    if let Some(entries) = &probe.siblings {
        let target = match &probe.file_name {
            Some(name) => to_lowercase(name.as_str()),
            None => to_lowercase(""),
        };
        assert(target@ == target_name(probe.file_name)) by {
            reveal_strlit("");
            assert(""@ =~= Seq::<char>::empty());
        }
        let mut i: usize = 0;
        while i < entries.len()
            invariant
                i <= entries.len(),
                !probe.exists,
                probe.canonical is None,
                probe.siblings == Some(*entries),
                target@ == target_name(probe.file_name),
                forall|j: int| 0 <= j < i ==> !names_match(entries@[j], target@),
            decreases entries.len() - i,
        {
            if let Some(name) = &entries[i].name {
                let lower = to_lowercase(name.as_str());
                if lower == target {
                    proof {
                        lemma_first_match(entries@, target@, i as int);
                    }
                    return Some(entries[i].path.clone());
                }
            }
            i += 1;
        }
        proof {
            lemma_first_match(entries@, target@, i as int);
        }
    }
    None
}

} // verus!
