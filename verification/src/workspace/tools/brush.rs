//! The paint tool. A stroke is painted into a scratch layer of its own, right
//! above the selected layer: pressing creates the layer, moving extends the
//! path of the stroke, and releasing merges the layer into the one beneath
//! it. The tool decides what happens to the stack; the host rasterizes the
//! path into the scratch layer's mask.

use crate::blend::{
    applied, resolve_blend_mode, resolved_blend_mode, transparent, BlendFunction, OPACITY_ONE,
};
use crate::raster::{solid_color, solid_luma, GrayImage};
use crate::workspace::compositor::{lemma_clean_carries_over, lemma_composite_agrees};
use crate::workspace::layer_info::{BlendMode, LayerCreationInfo, LayerInfoView};
use crate::workspace::tools::{ActionOrigin, Mutation, Tool};
use crate::workspace::{
    lemma_inserted_composable, lemma_removed_composable, LayerDataView, Workspace, WorkspaceView,
    UNPAINTED,
};
use vstd::prelude::*;

verus! {

/// How a brush paints. Size, hardness, rotation and opacity are for the
/// rasterizer alone: each is held as the bits of an IEEE 754 single and
/// never interpreted here.
#[derive(Debug, PartialEq, Eq)]
pub struct BrushToolSettings {
    /// Radius of the stamp in canvas pixels.
    pub size: u32,
    /// The color of the paint; without one the stroke is white and fully
    /// transparent.
    pub color: Option<[u8; 4]>,
    /// An image that shapes the stamp, if the brush has one.
    pub texture: Option<GrayImage>,
    /// How the stroke is laid over the layer beneath it.
    pub blend_mode: BlendMode,
    /// How sharply the stamp falls off towards its rim.
    pub hardness: u32,
    /// Rotation of the stamp in radians.
    pub rotation: u32,
    /// Opacity of one stamp.
    pub opacity: u32,
}

impl Default for BrushToolSettings {
    /// A hard round "normal" brush of radius 10.0 and full opacity, without
    /// a color or a texture.
    fn default() -> (r: Self)
        ensures
            r.size == 0x4120_0000u32,
            r.color is None,
            r.texture is None,
            r.blend_mode@ == "normal"@,
            r.hardness == 0x3F80_0000u32,
            r.rotation == 0,
            r.opacity == 0x3F80_0000u32,
    {
        Self {
            size: 0x4120_0000,
            color: None,
            texture: None,
            blend_mode: "normal".to_owned(),
            hardness: 0x3F80_0000,
            rotation: 0,
            opacity: 0x3F80_0000,
        }
    }
}

/// The paint tool: the settings of its brush and the stroke in progress.
#[derive(Debug, PartialEq, Eq)]
pub struct BrushTool {
    pub size: u32,
    pub color: Option<[u8; 4]>,
    pub texture: Option<GrayImage>,
    pub blend_mode: BlendMode,
    pub hardness: u32,
    pub rotation: u32,
    pub opacity: u32,
    /// The pointer positions of the stroke in progress, oldest first.
    pub path: Vec<(u32, u32)>,
    /// Where the scratch layer of the stroke in progress was created.
    pub stroke_layer: Option<usize>,
}

impl BrushTool {
    /// A tool with the given brush and no stroke in progress.
    pub fn new(settings: BrushToolSettings) -> (r: Self)
        ensures
            r.size == settings.size,
            r.color == settings.color,
            r.texture == settings.texture,
            r.blend_mode == settings.blend_mode,
            r.hardness == settings.hardness,
            r.rotation == settings.rotation,
            r.opacity == settings.opacity,
            r.path@.len() == 0,
            r.stroke_layer is None,
            r.wf() == (resolved_blend_mode(settings.blend_mode@) is Some),
    {
        Self {
            size: settings.size,
            color: settings.color,
            texture: settings.texture,
            blend_mode: settings.blend_mode,
            hardness: settings.hardness,
            rotation: settings.rotation,
            opacity: settings.opacity,
            path: Vec::new(),
            stroke_layer: None,
        }
    }

    /// The scratch layer of the stroke in progress: the layer that the tool
    /// remembers, as long as the stack still has a scratch layer there.
    pub open spec fn stroke(&self, ws: WorkspaceView) -> Option<usize> {
        match self.stroke_layer {
            Some(index) => if index < ws.layers.len() && ws.layers[index as int].is_tool_layer {
                Some(index)
            } else {
                None
            },
            None => None,
        }
    }

    /// Where a new scratch layer goes: right above the selected layer, or on
    /// top of the stack where no layer of the stack is selected.
    pub open spec fn scratch_slot(ws: WorkspaceView) -> int {
        match ws.selected_layer {
            Some(selected) => if selected < ws.layers.len() {
                selected + 1
            } else {
                ws.layers.len() as int
            },
            None => ws.layers.len() as int,
        }
    }

    /// The metadata of a new scratch layer.
    pub open spec fn scratch_info(&self) -> LayerInfoView {
        LayerInfoView {
            name: "Brush Layer"@,
            visible: true,
            opacity: OPACITY_ONE,
            blend_mode: self.blend_mode@,
            is_tool_layer: true,
        }
    }

    /// The images of a new scratch layer: the brush's color everywhere,
    /// under a mask that lets nothing through yet.
    pub open spec fn scratch_data(&self, pixels: nat) -> LayerDataView {
        LayerDataView {
            texture: match self.color {
                Some(rgba) => solid_color(pixels, rgba@),
                None => solid_color(pixels, UNPAINTED@),
            },
            mask: solid_luma(pixels, 0),
            running_total: transparent(4 * pixels),
        }
    }

    /// The workspace with the stroke in progress, if there is one, thrown
    /// away.
    pub open spec fn discarded(&self, ws: WorkspaceView) -> WorkspaceView {
        match self.stroke(ws) {
            Some(index) => ws.with_layer_removed(index as int).recomputed(index as int),
            None => ws,
        }
    }

    /// The workspace with a new stroke begun: any stroke in progress is
    /// thrown away, and a scratch layer is put in its slot.
    pub open spec fn started(&self, ws: WorkspaceView) -> WorkspaceView {
        let clear = self.discarded(ws);
        let slot = Self::scratch_slot(clear);
        clear.with_layer_inserted(
            slot,
            self.scratch_info(),
            self.scratch_data(clear.pixels()),
        ).recomputed(slot)
    }

    /// The workspace with the scratch layer at `index` committed: merged
    /// into the layer beneath it; made an ordinary layer where it is the
    /// bottom one; thrown away where its blend mode is not known.
    pub open spec fn committed(ws: WorkspaceView, index: int) -> WorkspaceView {
        if index == 0 {
            ws.with_layer_info(0, LayerInfoView { is_tool_layer: false, ..ws.layers[0] })
        } else if resolved_blend_mode(ws.layers[index].blend_mode) is Some {
            ws.with_layer_merged_down(index).recomputed(index - 1)
        } else {
            ws.with_layer_removed(index).recomputed(index)
        }
    }

    /// The layer that holds the stroke once the scratch layer at `index` is
    /// committed.
    pub open spec fn committed_layer(ws: WorkspaceView, index: int) -> int {
        if index == 0 {
            0
        } else if resolved_blend_mode(ws.layers[index].blend_mode) is Some {
            index - 1
        } else if index < ws.layers.len() - 1 {
            index
        } else {
            index - 1
        }
    }

    /// Finds the scratch layer of the stroke in progress.
    fn active_stroke(&self, workspace: &Workspace) -> (r: Option<usize>)
        requires
            workspace.wf(),
        ensures
            r == self.stroke(workspace@),
    {
        match self.stroke_layer {
            Some(index) => {
                if index < workspace.layers.len() {
                    if workspace.layers[index].is_tool_layer {
                        Some(index)
                    } else {
                        None
                    }
                } else {
                    None
                }
            },
            None => None,
        }
    }

    /// Abandons the stroke in progress: its scratch layer is deleted and
    /// the composite recomputed. Without a stroke nothing changes.
    pub fn cancel(&mut self, workspace: &mut Workspace)
        requires
            old(workspace).wf(),
            old(workspace)@.composable_from(0),
        ensures
            final(workspace)@ == old(self).discarded(old(workspace)@),
            final(workspace).wf(),
            final(workspace)@.composable_from(0),
            final(workspace)@.size == old(workspace)@.size,
            final(workspace)@.selected_layer == old(workspace)@.selected_layer,
            old(workspace)@.composited() ==> final(workspace)@.composited(),
            final(self).path@.len() == 0,
            final(self).stroke_layer is None,
            final(self).size == old(self).size,
            final(self).color == old(self).color,
            final(self).texture == old(self).texture,
            final(self).blend_mode == old(self).blend_mode,
            final(self).hardness == old(self).hardness,
            final(self).rotation == old(self).rotation,
            final(self).opacity == old(self).opacity,
    {
        let ghost before = workspace@;
        if let Some(index) = self.active_stroke(workspace) {
            proof {
                lemma_removed_composable(before, index as int);
            }
            workspace.remove_layer(index);
        }
        self.path.clear();
        self.stroke_layer = None;
    }

    /// Begins a stroke: creates its scratch layer.
    fn create_brush_layer(&mut self, workspace: &mut Workspace) -> (index: usize)
        requires
            old(self).wf(),
            old(self).stroke_layer is None,
            old(workspace).wf(),
            old(workspace)@.composable_from(0),
        ensures
            index == Self::scratch_slot(old(workspace)@),
            final(workspace)@ == old(workspace)@.with_layer_inserted(
                index as int,
                old(self).scratch_info(),
                old(self).scratch_data(old(workspace)@.pixels()),
            ).recomputed(index as int),
            final(workspace).wf(),
            final(workspace)@.composable_from(0),
            old(workspace)@.composited() ==> final(workspace)@.composited(),
            index < final(workspace)@.layers.len(),
            final(workspace)@.layers[index as int].is_tool_layer,
            final(self).stroke_layer == Some(index),
            final(self).path == old(self).path,
            final(self).size == old(self).size,
            final(self).color == old(self).color,
            final(self).texture == old(self).texture,
            final(self).blend_mode == old(self).blend_mode,
            final(self).hardness == old(self).hardness,
            final(self).rotation == old(self).rotation,
            final(self).opacity == old(self).opacity,
    {
        let ghost before = workspace@;
        let height = workspace.layers.len();
        let index: usize = match workspace.selected_layer {
            Some(selected) => if selected < height {
                selected + 1
            } else {
                height
            },
            None => height,
        };
        let info = LayerCreationInfo {
            name: "Brush Layer".to_owned(),
            blend_mode: self.blend_mode.clone(),
            init_mask_luma: Some(0),
            init_rgba: self.color,
            is_tool_layer: true,
            ..Default::default()
        };
        proof {
            lemma_inserted_composable(
                before,
                index as int,
                info.info(),
                info.layer_data(before.pixels()),
            );
        }
        workspace.create_layer(info, Some(index));
        self.stroke_layer = Some(index);
        index
    }

    /// Ends a stroke: commits the scratch layer at `index`.
    fn apply(&mut self, workspace: &mut Workspace, index: usize) -> (layer: usize)
        requires
            old(self).stroke(old(workspace)@) == Some(index),
            old(workspace).wf(),
            old(workspace)@.composable_from(0),
        ensures
            final(workspace)@ == Self::committed(old(workspace)@, index as int),
            layer == Self::committed_layer(old(workspace)@, index as int),
            final(workspace).wf(),
            final(workspace)@.composable_from(0),
            final(workspace)@.size == old(workspace)@.size,
            old(workspace)@.composited() ==> final(workspace)@.composited(),
            layer < final(workspace)@.layers.len(),
            final(self).path@.len() == 0,
            final(self).stroke_layer is None,
            final(self).size == old(self).size,
            final(self).color == old(self).color,
            final(self).texture == old(self).texture,
            final(self).blend_mode == old(self).blend_mode,
            final(self).hardness == old(self).hardness,
            final(self).rotation == old(self).rotation,
            final(self).opacity == old(self).opacity,
    {
        let ghost before = workspace@;
        self.path.clear();
        self.stroke_layer = None;
        if index == 0 {
            workspace.layers[0].is_tool_layer = false;
            proof {
                let after = before.with_layer_info(
                    0,
                    LayerInfoView { is_tool_layer: false, ..before.layers[0] },
                );
                assert(workspace@.layers =~= after.layers);
                assert forall|i: int| 0 <= i < after.layers.len() implies (
                #[trigger] after.layers[i]).opacity <= OPACITY_ONE by {
                    assert(before.layers[i].opacity <= OPACITY_ONE);
                }
                assert forall|i: int|
                    0 <= i < after.layers.len() && (
                    #[trigger] after.layers[i]).visible implies resolved_blend_mode(
                    after.layers[i].blend_mode,
                ) is Some by {
                    assert(before.layers[i].visible);
                }
                if before.composited() {
                    let n = before.layers.len() as int;
                    lemma_clean_carries_over(before, after, n);
                    lemma_composite_agrees(before, after, n);
                }
            }
            return 0;
        }
        proof {
            assert(before.layers[index as int] == workspace.layers@[index as int]@);
        }
        if resolve_blend_mode(workspace.layers[index].blend_mode.as_str()).is_some() {
            proof {
                let stack = before.with_layer_merged_down(index as int);
                let painted = before.with_layer_data(
                    index - 1,
                    stack.layer_data[index - 1],
                );
                lemma_removed_composable(painted, index as int);
            }
            workspace.merge_layer_down(index);
            index - 1
        } else {
            proof {
                lemma_removed_composable(before, index as int);
            }
            workspace.remove_layer(index);
            if index < workspace.layers.len() {
                index
            } else {
                index - 1
            }
        }
    }
}

impl Tool for BrushTool {
    /// The brush names a blend mode that is known.
    open spec fn wf(&self) -> bool {
        resolved_blend_mode(self.blend_mode@) is Some
    }

    /// Pressing begins a stroke, after throwing away one that was never
    /// ended. Moving goes on with the stroke in progress and leaves the
    /// workspace to the host. Releasing commits the stroke. Without a stroke
    /// in progress, moving and releasing change nothing.
    open spec fn outcome(&self, ws: WorkspaceView, origin: ActionOrigin) -> (
        WorkspaceView,
        Mutation,
    ) {
        match origin {
            ActionOrigin::MouseDown(at) => (
                self.started(ws),
                Mutation::Stamp { layer: Self::scratch_slot(self.discarded(ws)) as usize },
            ),
            ActionOrigin::MouseMove(at) => match self.stroke(ws) {
                Some(index) => (ws, Mutation::Stamp { layer: index }),
                None => (ws, Mutation::Nothing),
            },
            ActionOrigin::MouseUp(at) => match self.stroke(ws) {
                Some(index) => (
                    Self::committed(ws, index as int),
                    Mutation::Committed {
                        layer: Self::committed_layer(ws, index as int) as usize,
                    },
                ),
                None => (ws, Mutation::Nothing),
            },
        }
    }

    fn name(&self) -> (r: &str)
        ensures
            r@ == "Brush"@,
    {
        "Brush"
    }

    /// The brush keeps its settings. Pressing starts the path anew at the
    /// pointer and remembers the scratch layer; moving adds the pointer to
    /// the path of the stroke in progress; releasing forgets both.
    fn perform_action(&mut self, workspace: &mut Workspace, origin: ActionOrigin) -> (m: Mutation)
        ensures
            final(self).size == old(self).size,
            final(self).color == old(self).color,
            final(self).texture == old(self).texture,
            final(self).blend_mode == old(self).blend_mode,
            final(self).hardness == old(self).hardness,
            final(self).rotation == old(self).rotation,
            final(self).opacity == old(self).opacity,
            (match origin {
                ActionOrigin::MouseDown(at) => {
                    &&& final(self).path@ == seq![at]
                    &&& final(self).stroke_layer == Some(
                        Self::scratch_slot(old(self).discarded(old(workspace)@)) as usize,
                    )
                },
                ActionOrigin::MouseMove(at) => match old(self).stroke(old(workspace)@) {
                    Some(index) => {
                        &&& *final(workspace) == *old(workspace)
                        &&& final(self).path@ == old(self).path@.push(at)
                        &&& final(self).stroke_layer == old(self).stroke_layer
                    },
                    None => {
                        &&& *final(workspace) == *old(workspace)
                        &&& *final(self) == *old(self)
                    },
                },
                ActionOrigin::MouseUp(at) => match old(self).stroke(old(workspace)@) {
                    Some(index) => {
                        &&& final(self).path@.len() == 0
                        &&& final(self).stroke_layer is None
                    },
                    None => {
                        &&& *final(workspace) == *old(workspace)
                        &&& *final(self) == *old(self)
                    },
                },
            }),
    {
        match origin {
            ActionOrigin::MouseDown(at) => {
                self.cancel(workspace);
                let index = self.create_brush_layer(workspace);
                self.path.push(at);
                Mutation::Stamp { layer: index }
            },
            ActionOrigin::MouseMove(at) => {
                match self.active_stroke(workspace) {
                    Some(index) => {
                        self.path.push(at);
                        Mutation::Stamp { layer: index }
                    },
                    None => Mutation::Nothing,
                }
            },
            ActionOrigin::MouseUp(_at) => {
                match self.active_stroke(workspace) {
                    Some(index) => {
                        let layer = self.apply(workspace, index);
                        Mutation::Committed { layer }
                    },
                    None => Mutation::Nothing,
                }
            },
        }
    }
}

} // verus!
