//! Tools: what pointer actions on the canvas do to the workspace.

pub mod brush;
pub mod select;

use crate::workspace::{Workspace, WorkspaceView};
use vstd::prelude::*;

pub use crate::workspace::tools::select::SelectTool;

verus! {

/// A pointer action and where on the canvas it happened. Both coordinates
/// are in canvas pixels, each as the bits of an IEEE 754 single: a tool
/// stores them and hands them on, and never computes with them.
#[derive(Clone, Copy, Debug, PartialEq, Eq)]
pub enum ActionOrigin {
    MouseMove((u32, u32)),
    MouseDown((u32, u32)),
    MouseUp((u32, u32)),
}

/// What an action did, or what is left for the host to do.
#[derive(Clone, Copy, Debug, PartialEq, Eq)]
pub enum Mutation {
    /// The workspace is as it was.
    Nothing,
    /// A stroke is in progress on the scratch layer at `layer`. The host
    /// rasterizes the tool's path into that layer's mask and hands the mask
    /// back through `Workspace::set_layer_mask`.
    Stamp { layer: usize },
    /// A stroke has ended: its scratch layer was merged into the layer at
    /// `layer`, or, where there was none beneath it, became the ordinary
    /// layer at `layer`.
    Committed { layer: usize },
}

/// A tool handles the pointer actions of the canvas, one at a time and in
/// the order in which they happen.
pub trait Tool {
    /// What the tool needs of its own settings to work.
    spec fn wf(&self) -> bool;

    /// What an action makes of a workspace, and what it reports.
    spec fn outcome(&self, ws: WorkspaceView, origin: ActionOrigin) -> (WorkspaceView, Mutation);

    /// The name shown for the tool.
    fn name(&self) -> (r: &str);

    /// Handles one action: the workspace becomes what the tool's outcome for
    /// the action says. It stays well formed and composable, its canvas
    /// keeps its size, and a composited workspace stays composited.
    fn perform_action(&mut self, workspace: &mut Workspace, origin: ActionOrigin) -> (m: Mutation)
        requires
            old(self).wf(),
            old(workspace).wf(),
            old(workspace)@.composable_from(0),
        ensures
            (final(workspace)@, m) == old(self).outcome(old(workspace)@, origin),
            final(self).wf(),
            final(workspace).wf(),
            final(workspace)@.composable_from(0),
            final(workspace)@.size == old(workspace)@.size,
            old(workspace)@.composited() ==> final(workspace)@.composited(),
            (m matches Mutation::Stamp { layer } ==> layer < final(workspace)@.layers.len()),
            (m matches Mutation::Committed { layer } ==> layer < final(workspace)@.layers.len()),
    ;
}

impl Workspace {
    /// Hands a pointer action to the active tool.
    pub fn perform_action<T: Tool>(&mut self, tool: &mut T, origin: ActionOrigin) -> (m: Mutation)
        requires
            old(tool).wf(),
            old(self).wf(),
            old(self)@.composable_from(0),
        ensures
            (final(self)@, m) == old(tool).outcome(old(self)@, origin),
            final(tool).wf(),
            final(self).wf(),
            final(self)@.composable_from(0),
            final(self)@.size == old(self)@.size,
            old(self)@.composited() ==> final(self)@.composited(),
            (m matches Mutation::Stamp { layer } ==> layer < final(self)@.layers.len()),
            (m matches Mutation::Committed { layer } ==> layer < final(self)@.layers.len()),
    {
        tool.perform_action(self, origin)
    }
}

} // verus!
