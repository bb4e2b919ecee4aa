//! What the user interface asks of the coordinator.

use vstd::prelude::*;
use crate::probe::PathProbe;
use crate::resource_manager::{looked_up, ResourceManager};
use crate::text::starts_with;

verus! {

/// The answer to "is this resource there?".
#[derive(Debug)]
pub struct ResourceCheck {
    /// Whether the resource is on disk.
    pub exists: bool,
    /// Whether the interface should expect a download: the resource is not on
    /// disk and is asked for under the download namespace.
    pub downloading: bool,
    /// The path as the interface wrote it.
    pub path: String,
    /// Where the resource lies on disk, if it does.
    pub abs_path: Option<String>,
}

/// Whether `path`, as written, lies in the namespace that is fetched on
/// demand.
pub open spec fn fetched_on_demand(path: Seq<char>) -> bool {
    "passionfruit/"@.is_prefix_of(path) || "assets/passionfruit/"@.is_prefix_of(path)
}

/// Tells whether a resource is on disk and whether a download is to be
/// expected. Nothing is downloaded; the index learns of a resource that the
/// probe found.
pub fn check_resource_exists(
    manager: &mut ResourceManager,
    resource_path: String,
    probe: &PathProbe,
) -> (check: ResourceCheck)
    requires
        old(manager).wf(),
    ensures
        final(manager).wf(),
        final(manager)@ == looked_up(old(manager)@, resource_path@, *probe).0,
        check.exists == (looked_up(old(manager)@, resource_path@, *probe).1 is Some),
        check.abs_path.deep_view() == looked_up(old(manager)@, resource_path@, *probe).1,
        check.downloading == (!check.exists && fetched_on_demand(resource_path@)),
        check.path@ == resource_path@,
{
    let expected = starts_with(resource_path.as_str(), "passionfruit/") || starts_with(
        resource_path.as_str(),
        "assets/passionfruit/",
    );
    let (exists, abs_path) = manager.exists_local(resource_path.clone(), probe);
    ResourceCheck { exists, downloading: !exists && expected, path: resource_path, abs_path }
}

} // verus!
