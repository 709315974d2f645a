//! The watch modes.
//!
//! A mode is one category of window-manager state.  Each mode owns two fixed
//! mappings: the control-channel query that fetches the state, and the set of
//! event names whose records make the watcher re-issue that query.  A mode is
//! chosen once at startup and never changes.

use crate::event::cmd_views;
use crate::event::count_triggers;
use crate::event::match_cmds;
use crate::event::spec_match_cmds;
use crate::event::trigger_count;
use vstd::prelude::*;
use vstd::string::StringSliceAdditionalSpecFns;

verus! {

/// The category of state being watched.
#[derive(Clone, Copy, PartialEq, Eq, Structural, Debug)]
pub enum Mode {
    /// The currently focused window.
    ActiveWindow,
    /// The currently focused workspace.
    ActiveWorkspace,
    /// The list of workspaces.
    Workspaces,
}

impl Mode {
    /// The control-channel command requesting this mode's state.
    pub open spec fn spec_query(self) -> Seq<u8> {
        match self {
            Mode::ActiveWindow => "j/activewindow".spec_bytes(),
            Mode::ActiveWorkspace => "j/activeworkspace".spec_bytes(),
            Mode::Workspaces => "j/workspaces".spec_bytes(),
        }
    }

    /// The event names whose records are relevant to this mode.
    pub open spec fn spec_triggers(self) -> Seq<Seq<u8>> {
        match self {
            Mode::ActiveWindow => seq![
                "activewindow".spec_bytes(),
                "windowtitle".spec_bytes(),
            ],
            Mode::ActiveWorkspace => seq![
                "workspace".spec_bytes(),
                "activewindow".spec_bytes(),
            ],
            Mode::Workspaces => seq![
                "createworkspace".spec_bytes(),
                "destroyworkspace".spec_bytes(),
            ],
        }
    }

    /// The control-channel command requesting this mode's state.
    pub fn query(self) -> (q: &'static str)
        ensures
            q.spec_bytes() == self.spec_query(),
    {
        match self {
            Mode::ActiveWindow => "j/activewindow",
            Mode::ActiveWorkspace => "j/activeworkspace",
            Mode::Workspaces => "j/workspaces",
        }
    }

    /// The event names whose records are relevant to this mode.
    pub fn triggers(self) -> (ts: Vec<&'static str>)
        ensures
            cmd_views(ts@) == self.spec_triggers(),
    {
        let mut ts: Vec<&'static str> = Vec::new();
        match self {
            Mode::ActiveWindow => {
                ts.push("activewindow");
                ts.push("windowtitle");
            },
            Mode::ActiveWorkspace => {
                ts.push("workspace");
                ts.push("activewindow");
            },
            Mode::Workspaces => {
                ts.push("createworkspace");
                ts.push("destroyworkspace");
            },
        }
        proof {
            assert(cmd_views(ts@) =~= self.spec_triggers());
        }
        ts
    }

    /// Some record of the chunk is relevant to this mode.
    pub fn chunk_matches(self, chunk: &[u8]) -> (r: bool)
        ensures
            r == spec_match_cmds(chunk@, self.spec_triggers()),
    {
        let ts = self.triggers();
        match_cmds(chunk, ts.as_slice())
    }

    /// How many records of the chunk are relevant to this mode, in line
    /// order.  The watch loop re-issues this mode's query once per unit,
    /// back to back, before reading the next chunk.
    pub fn chunk_query_count(self, chunk: &[u8]) -> (n: usize)
        ensures
            n as nat == trigger_count(chunk@, self.spec_triggers()),
            n <= chunk@.len(),
    {
        let ts = self.triggers();
        count_triggers(chunk, ts.as_slice())
    }
}

} // verus!
