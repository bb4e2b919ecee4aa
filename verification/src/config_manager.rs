//! Where the application keeps its files, and what goes where in its
//! configuration.
//!
//! The caller looks at the disk and reads and writes the configuration file;
//! which directory is the base of the resources, how the directories below it
//! are laid out, which of two configuration files counts, and under which key
//! a setting is stored is decided here.

use vstd::prelude::*;
use crate::normalize::{absolute_path_of, joined, with_separator};
use crate::text::same_text;

verus! {

/// The directories that hold what `target` names, from the base directory
/// down: the download cache for `passionfruit`, the base directory itself for
/// `root`, and the data directory for anything else.
pub open spec fn hidden_config_dir(base: Seq<char>, target: Seq<char>, separator: char) -> Seq<
    char,
> {
    if target == "passionfruit"@ {
        joined(base, "passionfruit"@, separator)
    } else if target == "root"@ {
        base
    } else {
        joined(joined(base, "mod"@, separator), "data"@, separator)
    }
}

/// The path of the configuration file below `base`.
pub open spec fn config_file(base: Seq<char>, separator: char) -> Seq<char> {
    joined(hidden_config_dir(base, "data"@, separator), "config.json"@, separator)
}

/// Remembers the resource base path. The first path set stays: a later call
/// changes nothing.
pub fn set_resource_base_path(slot: &mut Option<String>, path: String)
    ensures
        *old(slot) is None ==> *final(slot) == Some(path),
        *old(slot) is Some ==> *final(slot) == *old(slot),
{
    if slot.is_none() {
        *slot = Some(path);
    }
}

/// `name` appended to the directory `base`. A name holds no `/`, so the
/// separator plays no part in it.
fn child(base: &str, name: &str, separator: char) -> (path: String)
    requires
        !name@.contains('/'),
    ensures
        path@ == joined(base@, name@, separator),
{
    proof {
        assert(with_separator(name@, separator) =~= name@) by {
            assert forall|i: int| 0 <= i < name@.len() implies name@[i] != '/' by {
                assert(name@.contains(name@[i]));
            }
        }
    }
    absolute_path_of(base, name, separator)
}

/// The directory below `base` that holds what `target` names.
pub fn get_hidden_config_dir(base: &str, target: &str, separator: char) -> (dir: String)
    ensures
        dir@ == hidden_config_dir(base@, target@, separator),
{
    proof {
        reveal_strlit("passionfruit");
        reveal_strlit("mod");
        reveal_strlit("data");
    }
    if same_text(target, "passionfruit") {
        child(base, "passionfruit", separator)
    } else if same_text(target, "root") {
        base.to_owned()
    } else {
        let module_dir = child(base, "mod", separator);
        child(module_dir.as_str(), "data", separator)
    }
}

/// What the disk holds at one directory on the way from the program's own
/// directory up to the root.
#[derive(Debug)]
pub struct DirectoryFacts {
    /// The directory itself.
    pub path: String,
    /// The assets directory that an installed bundle puts beside the program,
    /// where it exists.
    pub bundled_assets: Option<String>,
    /// The assets directory inside this directory, where it exists.
    pub assets: Option<String>,
}

/// The index of the first of `ancestors` that has an assets directory, or
/// their number where none has.
pub open spec fn first_with_assets(ancestors: Seq<DirectoryFacts>) -> nat
    decreases ancestors.len(),
{
    if ancestors.len() == 0 || ancestors[0].assets is Some {
        0
    } else {
        1 + first_with_assets(ancestors.drop_first())
    }
}

/// The base directory of the resources: the configured one where one is
/// configured; else the bundle's assets beside the program; else the assets
/// directory nearest to the program on the way up; else the topmost directory
/// itself. `ancestors` starts at the program's directory and ends at the root.
pub open spec fn resource_base(configured: Option<String>, ancestors: Seq<DirectoryFacts>) -> Seq<
    char,
> {
    if let Some(base) = configured {
        base@
    } else if ancestors.len() == 0 {
        "."@
    } else if let Some(bundled) = ancestors[0].bundled_assets {
        bundled@
    } else {
        let at = first_with_assets(ancestors);
        if at < ancestors.len() {
            ancestors[at as int].assets->0@
        } else {
            ancestors.last().path@
        }
    }
}

/// `first_with_assets` is the one index before which no directory has assets
/// and at which one has, unless it is the end.
pub proof fn lemma_first_with_assets(ancestors: Seq<DirectoryFacts>, n: int)
    requires
        0 <= n <= ancestors.len(),
        forall|j: int| 0 <= j < n ==> ancestors[j].assets is None,
        n < ancestors.len() ==> ancestors[n].assets is Some,
    ensures
        first_with_assets(ancestors) == n,
    decreases ancestors.len(),
{
    if n > 0 {
        let rest = ancestors.drop_first();
        assert forall|j: int| 0 <= j < n - 1 implies rest[j].assets is None by {
            assert(rest[j] == ancestors[j + 1]);
        }
        lemma_first_with_assets(rest, n - 1);
    }
}

/// Chooses the base directory of the resources from what is configured and
/// what the disk holds above the program.
pub fn choose_resource_base(configured: &Option<String>, ancestors: &Vec<DirectoryFacts>) -> (base:
    String)
    ensures
        base@ == resource_base(*configured, ancestors@),
{
    if let Some(base) = configured {
        return base.clone();
    }
    if ancestors.len() == 0 {
        return ".".to_owned();
    }
    if let Some(bundled) = &ancestors[0].bundled_assets {
        return bundled.clone();
    }
    let mut i: usize = 0;
    while i < ancestors.len()
        invariant
            i <= ancestors.len(),
            ancestors.len() > 0,
            *configured is None,
            ancestors@[0].bundled_assets is None,
            forall|j: int| 0 <= j < i ==> ancestors@[j].assets is None,
        decreases ancestors.len() - i,
    {
        if let Some(assets) = &ancestors[i].assets {
            proof {
                lemma_first_with_assets(ancestors@, i as int);
            }
            return assets.clone();
        }
        i += 1;
    }
    proof {
        lemma_first_with_assets(ancestors@, i as int);
    }
    ancestors[ancestors.len() - 1].path.clone()
}

/// The faction filter of the reports where none is stored: all factions.
pub const DEFAULT_FACTION_FILTER: &'static str = "全部";

/// Where the configuration is taken from.
#[derive(Debug, Clone, Copy, PartialEq, Eq, Structural)]
pub enum ConfigSource {
    /// The configuration file itself.
    Stored,
    /// The configuration file of the working directory, which is then copied
    /// to the place of the configuration file.
    Fallback,
    /// Nowhere: the configuration is empty.
    Empty,
}

/// Chooses where the configuration is taken from. A configuration file that
/// exists is the only candidate, readable or not; the one of the working
/// directory is looked at only where there is none.
pub fn choose_config(
    stored_exists: bool,
    stored_readable: bool,
    fallback_exists: bool,
    fallback_readable: bool,
) -> (source: ConfigSource)
    ensures
        source == if stored_exists {
            if stored_readable {
                ConfigSource::Stored
            } else {
                ConfigSource::Empty
            }
        } else if fallback_exists && fallback_readable {
            ConfigSource::Fallback
        } else {
            ConfigSource::Empty
        },
{
    if stored_exists {
        if stored_readable {
            ConfigSource::Stored
        } else {
            ConfigSource::Empty
        }
    } else if fallback_exists && fallback_readable {
        ConfigSource::Fallback
    } else {
        ConfigSource::Empty
    }
}

/// The key under which a settings field of the interface is stored with an
/// account, for the fields that are stored there.
pub open spec fn settings_key_of(field: Seq<char>) -> Option<Seq<char>> {
    if field == "bgm"@ {
        Some("bgm_volume"@)
    } else if field == "se"@ {
        Some("se_volume"@)
    } else if field == "se147Muted"@ {
        Some("se147_muted"@)
    } else if field == "report_faction_filter"@ {
        Some("report_faction_filter"@)
    } else {
        None
    }
}

/// The key under which a settings field of the interface is stored with an
/// account.
pub fn settings_key(field: &str) -> (key: Option<&'static str>)
    ensures
        key.deep_view() == settings_key_of(field@),
{
    if same_text(field, "bgm") {
        Some("bgm_volume")
    } else if same_text(field, "se") {
        Some("se_volume")
    } else if same_text(field, "se147Muted") {
        Some("se147_muted")
    } else if same_text(field, "report_faction_filter") {
        Some("report_faction_filter")
    } else {
        None
    }
}

/// Whether a field of an update without target account is written to the top
/// level of the configuration: every field that has a value, but for the one
/// that names the target.
pub fn is_global_field(field: &str, is_null: bool) -> (written: bool)
    ensures
        written == (!is_null && field@ != "target_account"@),
{
    !is_null && !same_text(field, "target_account")
}

/// The path of the configuration file below `base`.
pub fn get_config_file(base: &str, separator: char) -> (path: String)
    ensures
        path@ == config_file(base@, separator),
{
    proof {
        reveal_strlit("config.json");
    }
    let dir = get_hidden_config_dir(base, "data", separator);
    child(dir.as_str(), "config.json", separator)
}

} // verus!
