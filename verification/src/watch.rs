//! The watch loop's decisions: which observed events trigger a pass, with
//! what flags a pass runs, and that no pass failure ends the loop. The loop
//! itself — observing the file and sleeping — belongs to the caller.

use vstd::prelude::*;

verus! {

/// What one wait on the configuration file's watcher produced.
pub enum WatchEvent {
    /// The watched file was modified.
    Modified,
    /// Some other event on the watched path.
    Other,
    /// The bounded wait ran out without an event.
    Timeout,
}

/// The flags of one generation pass.
#[derive(Clone, Copy, PartialEq, Eq, Structural, Debug)]
pub struct GenerateFlags {
    pub dry_run: bool,
    pub overwrite: bool,
    pub force: bool,
}

/// Exactly a modification of the watched file triggers a regeneration pass.
pub fn watch_should_regenerate(ev: &WatchEvent) -> (r: bool)
    ensures
        r == (ev is Modified),
{
    match ev {
        WatchEvent::Modified => true,
        WatchEvent::Other => false,
        WatchEvent::Timeout => false,
    }
}

/// A watch-triggered pass is plain generation: no dry run, no overwrite, no
/// force.
pub fn watch_pass_flags() -> (r: GenerateFlags)
    ensures
        !r.dry_run && !r.overwrite && !r.force,
{
    GenerateFlags { dry_run: false, overwrite: false, force: false }
}

/// The loop goes on whatever a pass returned: a failing pass is reported,
/// never fatal to the loop.
pub fn watch_continues_after(pass_failed: bool) -> (r: bool)
    ensures
        r,
{
    let _ = pass_failed;
    true
}

} // verus!
