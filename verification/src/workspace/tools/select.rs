//! The selection tool.

use crate::workspace::tools::{ActionOrigin, Mutation, Tool};
use crate::workspace::{Workspace, WorkspaceView};
use vstd::prelude::*;

verus! {

/// The selection tool. It changes nothing yet.
#[derive(Clone, Copy, Debug, Default)]
pub struct SelectTool;

impl Tool for SelectTool {
    open spec fn wf(&self) -> bool {
        true
    }

    /// Nothing changes and nothing is reported.
    open spec fn outcome(&self, ws: WorkspaceView, origin: ActionOrigin) -> (
        WorkspaceView,
        Mutation,
    ) {
        (ws, Mutation::Nothing)
    }

    fn name(&self) -> (r: &str)
        ensures
            r@ == "Select"@,
    {
        "Select"
    }

    /// Leaves the workspace exactly as it was.
    fn perform_action(&mut self, workspace: &mut Workspace, origin: ActionOrigin) -> (m: Mutation)
        ensures
            *final(workspace) == *old(workspace),
            m == Mutation::Nothing,
    {
        Mutation::Nothing
    }
}

} // verus!
