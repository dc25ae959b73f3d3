//! The external tool adapter's contract: where the media binaries are
//! looked for, in which order, and what an availability probe means.
//! The filesystem checks and the version-query subprocess run outside
//! the library.

use vstd::prelude::*;

verus! {

/// Where a media binary is resolved from.
#[derive(Clone, Copy, Debug, PartialEq, Eq, Structural)]
pub enum ToolLocation {
    /// A binary placed next to the running application's executable.
    Sidecar,
    /// The legacy bundled-resource location.
    Bundled,
    /// Whatever the system search path finds.
    System,
}

/// The resolution order every caller depends on: the sidecar binary
/// wins, then the bundled location, and only then the system search
/// path.
pub fn resolve_tool(sidecar_exists: bool, bundled_exists: bool) -> (loc: ToolLocation)
    ensures
        sidecar_exists ==> loc == ToolLocation::Sidecar,
        !sidecar_exists && bundled_exists ==> loc == ToolLocation::Bundled,
        !sidecar_exists && !bundled_exists ==> loc == ToolLocation::System,
{
    if sidecar_exists {
        ToolLocation::Sidecar
    } else if bundled_exists {
        ToolLocation::Bundled
    } else {
        ToolLocation::System
    }
}

/// Whether the merge tool is available, given the outcome of the
/// harmless version query against the resolved binary: `None` when
/// the binary could not be run at all, otherwise whether the query
/// exited successfully.
pub fn check_ffmpeg(version_probe: Option<bool>) -> (ok: bool)
    ensures
        ok == (version_probe == Some(true)),
{
    match version_probe {
        Some(success) => success,
        None => false,
    }
}

} // verus!
