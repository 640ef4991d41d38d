//! `dlss5-feed.cfg` beside the game exe, tuned to not drop frames.
//!
//! The Feeder reads this file on first run; if it is absent it creates one with
//! its own defaults. This tool writes it only when it does not yet exist, so a
//! game set up by hand keeps its own tuning.
use vstd::prelude::*;

use crate::tree::{has_file, holds_file, Node};

verus! {

/// The DLSS5-Feeder config beside the exe.
pub const FEEDER_CFG: &'static str = "dlss5-feed.cfg";

/// The full default set, as the Feeder's own template has it, but for
/// `create_delay`: with the default of 60 a fullscreen swapchain rebuild outraces
/// the add-on and drops the DLSS feature.
pub const CFG_BODY: &'static str =
    "enabled = 1\nmode = 2\nhdr = -1\ndepth_inverted = -1\nflags = -1\nreset_every = 0\ncreate_delay = 600\npreset = 11\nwork_resolution = 100\ngpu_timeout_ms = 2000\nbuffer_home = 1\nasync_home = 0\nsync_home = 0\nmv_scale_x = 1.000\nmv_scale_y = 1.000\n";

pub fn cfg_body() -> (r: String)
    ensures
        r@ == CFG_BODY@,
{
    CFG_BODY.to_owned()
}

/// The file that is to be written into the folder, and what it holds; nothing
/// where there is one, which is left untouched.
pub fn write_if_missing(game_dir: &[Node]) -> (r: Option<(&'static str, String)>)
    ensures
        match r {
            Some((name, body)) => !has_file(game_dir@, FEEDER_CFG@) && name@ == FEEDER_CFG@
                && body@ == CFG_BODY@,
            None => has_file(game_dir@, FEEDER_CFG@),
        },
{
    if holds_file(game_dir, FEEDER_CFG) {
        None
    } else {
        Some((FEEDER_CFG, cfg_body()))
    }
}

} // verus!
