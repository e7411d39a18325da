//! Which file-system events should reload the state. Everything inside
//! `.state/` (lock file, sessions, temporary files of atomic writes) is
//! transient and never affects the graph.
use vstd::prelude::*;
use crate::text::str_eq;

verus! {

/// `base` is a whole-component prefix of `path` (std's `Path::starts_with`,
/// taken on the paths' components).
pub open spec fn components_start_with(path: Seq<String>, base: Seq<String>) -> bool {
    base.len() <= path.len() && forall|i: int| 0 <= i < base.len() ==> (#[trigger] path[i])@ == base[i]@
}

/// Some path of the event lies outside the state directory.
pub open spec fn relevant(paths: Seq<Vec<String>>, state_dir: Seq<String>) -> bool {
    exists|i: int| 0 <= i < paths.len() && !components_start_with((#[trigger] paths[i])@, state_dir)
}

/// Whether `path` (as components) lies under `base` (as components).
pub fn starts_with_components(path: &Vec<String>, base: &Vec<String>) -> (r: bool)
    ensures
        r == components_start_with(path@, base@),
{
    if base.len() > path.len() {
        return false;
    }
    for i in 0..base.len()
        invariant
            base@.len() <= path@.len(),
            forall|k: int| 0 <= k < i ==> (#[trigger] path@[k])@ == base@[k]@,
    {
        if !str_eq(path[i].as_str(), base[i].as_str()) {
            return false;
        }
    }
    true
}

/// Returns `true` if any event path is outside `.state/`. Paths are
/// given as their components.
pub fn is_relevant(paths: &Vec<Vec<String>>, state_dir: &Vec<String>) -> (r: bool)
    ensures
        r == relevant(paths@, state_dir@),
{
    for i in 0..paths.len()
        invariant
            forall|k: int| 0 <= k < i ==> components_start_with((#[trigger] paths@[k])@, state_dir@),
    {
        if !starts_with_components(&paths[i], state_dir) {
            return true;
        }
    }
    false
}

} // verus!
