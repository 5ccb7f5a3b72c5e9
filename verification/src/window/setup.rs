//! The start of the window.
use vstd::prelude::*;
use vstd::string::*;

use crate::paths::{join_path, joined_path};

verus! {

/// Size of the window at first, in pixels.
pub const DEFAULT_WINDOW_WIDTH: i32 = 1400;

pub const DEFAULT_WINDOW_HEIGHT: i32 = 900;

/// The title of the window.
pub fn window_title(version: &str) -> (r: String)
    ensures
        r@ == "Limux v"@ + version@,
{
    let mut title = "Limux v".to_owned();
    title.append(version);
    title
}

/// Whether the window has a header of its own: unless the compositor decorates
/// windows. `decorates` is what the compositor says, where it can be asked.
pub fn has_own_header(decorates: Option<bool>) -> (r: bool)
    ensures
        r == (decorates != Some(true)),
{
    match decorates {
        Some(decorates) => !decorates,
        None => true,
    }
}

/// The directories in which icons may be: two places relative to the application's
/// file, where that is known, and the place that it was built from. Paths are byte
/// strings.
pub fn icon_search_paths(exe_dir: Option<&[u8]>, build_icons: Vec<u8>) -> (r: Vec<Vec<u8>>)
    ensures
        match exe_dir {
            Some(dir) => {
                &&& r@.len() == 3
                &&& r@[0]@ == joined_path(
                    dir@,
                    "../../rust/limux-host-linux/icons".spec_bytes(),
                )
                &&& r@[1]@ == joined_path(dir@, "../icons".spec_bytes())
                &&& r@[2] == build_icons
            },
            None => r@.len() == 1 && r@[0] == build_icons,
        },
{
    let mut paths: Vec<Vec<u8>> = Vec::new();
    if let Some(dir) = exe_dir {
        paths.push(join_path(dir, "../../rust/limux-host-linux/icons".as_bytes()));
        paths.push(join_path(dir, "../icons".as_bytes()));
    }
    paths.push(build_icons);
    paths
}

} // verus!
