//! The workspace: a canvas of fixed size and the ordered stack of layers
//! painted on it, bottom first.

pub mod compositor;
pub mod layer_info;
pub mod tools;
pub mod workspace_serialization;

use crate::blend::{
    applied, blend_normal, resolve_blend_mode, resolved_blend_mode, transparent, BlendFunction,
    OPACITY_ONE,
};
use crate::raster::{copy_bytes, fill_luma, fill_rgba, solid_color, solid_luma};
use crate::workspace::compositor::lemma_clean_carries_over;
use crate::workspace::layer_info::{LayerCreationInfo, LayerInfo, LayerInfoView};
use vstd::prelude::*;

verus! {

/// The images of one layer: its color, its mask, and the cached composite of
/// the stack up to and including this layer.
#[derive(Debug, PartialEq, Eq)]
pub struct LayerData {
    /// Four channels per pixel.
    pub texture: Vec<u8>,
    /// One value per pixel: 255 lets the layer contribute fully, 0 not at all.
    pub mask: Vec<u8>,
    /// Four channels per pixel. A derived cache, never read for a hidden layer.
    pub running_total: Vec<u8>,
}

/// The mathematical value of a `LayerData`.
pub struct LayerDataView {
    pub texture: Seq<u8>,
    pub mask: Seq<u8>,
    pub running_total: Seq<u8>,
}

impl View for LayerData {
    type V = LayerDataView;

    open spec fn view(&self) -> LayerDataView {
        LayerDataView {
            texture: self.texture@,
            mask: self.mask@,
            running_total: self.running_total@,
        }
    }
}

impl Clone for LayerData {
    fn clone(&self) -> (r: Self)
        ensures
            r@ == self@,
    {
        LayerData {
            texture: copy_bytes(&self.texture),
            mask: copy_bytes(&self.mask),
            running_total: copy_bytes(&self.running_total),
        }
    }
}

impl LayerDataView {
    /// All three images have the size of a canvas of `pixels` pixels.
    pub open spec fn wf(self, pixels: nat) -> bool {
        &&& self.texture.len() == 4 * pixels
        &&& self.mask.len() == pixels
        &&& self.running_total.len() == 4 * pixels
    }
}

/// A canvas and its stack of layers. Index 0 is the bottom layer.
#[derive(Debug, PartialEq, Eq)]
pub struct Workspace {
    /// Width and height of the canvas in pixels.
    pub size: (u32, u32),
    /// Zoom factor of the view, as the bits of an IEEE 754 single. Stored and
    /// saved, never interpreted here.
    pub zoom: u32,
    /// The canvas position at the center of the view, each coordinate as the
    /// bits of an IEEE 754 single. Stored and saved, never interpreted here.
    pub pixel_at_center: (u32, u32),
    /// Metadata of the layers, bottom first.
    pub layers: Vec<LayerInfo>,
    /// Images of the layers, in step with `layers`.
    pub layer_data: Vec<LayerData>,
    /// The composite of the whole stack, once it has been built.
    pub output_texture: Option<Vec<u8>>,
    /// The layer that tools work on, if one is chosen.
    pub selected_layer: Option<usize>,
}

/// The mathematical value of a `Workspace`.
pub struct WorkspaceView {
    pub size: (u32, u32),
    pub zoom: u32,
    pub pixel_at_center: (u32, u32),
    pub layers: Seq<LayerInfoView>,
    pub layer_data: Seq<LayerDataView>,
    pub output_texture: Option<Seq<u8>>,
    pub selected_layer: Option<usize>,
}

impl View for Workspace {
    type V = WorkspaceView;

    open spec fn view(&self) -> WorkspaceView {
        WorkspaceView {
            size: self.size,
            zoom: self.zoom,
            pixel_at_center: self.pixel_at_center,
            layers: Seq::new(self.layers@.len(), |i: int| self.layers@[i]@),
            layer_data: Seq::new(self.layer_data@.len(), |i: int| self.layer_data@[i]@),
            output_texture: match self.output_texture {
                Some(image) => Some(image@),
                None => None,
            },
            selected_layer: self.selected_layer,
        }
    }
}

/// The color that a layer gets when no color source is given: white, fully
/// transparent.
pub const UNPAINTED: [u8; 4] = [255, 255, 255, 0];

impl LayerCreationInfo {
    /// The color image of the new layer on a canvas of `pixels` pixels: the
    /// one source that is given, else white, fully transparent.
    pub open spec fn texture(&self, pixels: nat) -> Seq<u8> {
        if let Some(buffer) = self.init_texture {
            buffer@
        } else if let Some(image) = self.init_image {
            image.data@
        } else if let Some(rgba) = self.init_rgba {
            solid_color(pixels, rgba@)
        } else {
            solid_color(pixels, UNPAINTED@)
        }
    }

    /// The mask of the new layer on a canvas of `pixels` pixels: the one
    /// source that is given, else fully opaque.
    pub open spec fn mask(&self, pixels: nat) -> Seq<u8> {
        if let Some(buffer) = self.init_mask_texture {
            buffer@
        } else if let Some(image) = self.init_mask_image {
            image.data@
        } else if let Some(luma) = self.init_mask_luma {
            solid_luma(pixels, luma)
        } else {
            solid_luma(pixels, 255)
        }
    }

    /// The images of the new layer. Its cache starts out transparent.
    pub open spec fn layer_data(&self, pixels: nat) -> LayerDataView {
        LayerDataView {
            texture: self.texture(pixels),
            mask: self.mask(pixels),
            running_total: transparent(4 * pixels),
        }
    }
}

impl WorkspaceView {
    /// The stack with a layer inserted at `index`; the layers from `index`
    /// on move up by one.
    pub open spec fn with_layer_inserted(
        self,
        index: int,
        info: LayerInfoView,
        data: LayerDataView,
    ) -> WorkspaceView {
        WorkspaceView {
            layers: self.layers.insert(index, info),
            layer_data: self.layer_data.insert(index, data),
            ..self
        }
    }

    /// The stack without the layer at `index`; the layers above it move down
    /// by one.
    pub open spec fn with_layer_removed(self, index: int) -> WorkspaceView {
        WorkspaceView {
            layers: self.layers.remove(index),
            layer_data: self.layer_data.remove(index),
            ..self
        }
    }

    /// The stack with the layer at `from` taken out and put back at `to`;
    /// the other layers keep their order.
    pub open spec fn with_layer_moved(self, from: int, to: int) -> WorkspaceView {
        self.with_layer_removed(from).with_layer_inserted(
            to,
            self.layers[from],
            self.layer_data[from],
        )
    }

    /// The stack with the metadata of layer `index` replaced.
    pub open spec fn with_layer_info(self, index: int, info: LayerInfoView) -> WorkspaceView {
        WorkspaceView { layers: self.layers.update(index, info), ..self }
    }

    /// The stack with the images of layer `index` replaced.
    pub open spec fn with_layer_data(self, index: int, data: LayerDataView) -> WorkspaceView {
        WorkspaceView { layer_data: self.layer_data.update(index, data), ..self }
    }

    /// The stack with the mask of layer `index` replaced.
    pub open spec fn with_layer_mask(self, index: int, mask: Seq<u8>) -> WorkspaceView {
        self.with_layer_data(index, LayerDataView { mask, ..self.layer_data[index] })
    }

    /// The stack with layer `index` laid over the color of the layer beneath
    /// it, by the blend function that it names, through its own mask and
    /// opacity, and then taken out.
    pub open spec fn with_layer_merged_down(self, index: int) -> WorkspaceView {
        let merged = match resolved_blend_mode(self.layers[index].blend_mode) {
            Some(function) => applied(
                function,
                self.layer_data[index - 1].texture,
                self.layer_data[index].texture,
                self.layer_data[index].mask,
                self.layers[index].opacity,
            ),
            None => self.layer_data[index - 1].texture,
        };
        self.with_layer_data(
            index - 1,
            LayerDataView { texture: merged, ..self.layer_data[index - 1] },
        ).with_layer_removed(index)
    }

    /// The layer from which a recompute really starts when `start` is asked
    /// for: the bottom, where no output has been built yet.
    pub open spec fn effective_start(self, start: int) -> int {
        if self.output_texture is None {
            0
        } else {
            start
        }
    }
}

/// Inserting a well-formed layer keeps the workspace well formed.
pub proof fn lemma_inserted_wf(
    ws: WorkspaceView,
    index: int,
    info: LayerInfoView,
    data: LayerDataView,
)
    requires
        ws.wf(),
        0 <= index <= ws.layers.len(),
        info.opacity <= OPACITY_ONE,
        data.wf(ws.pixels()),
    ensures
        ws.with_layer_inserted(index, info, data).wf(),
{
    let stack = ws.with_layer_inserted(index, info, data);
    assert forall|i: int| 0 <= i < stack.layer_data.len() implies (
    #[trigger] stack.layer_data[i]).wf(stack.pixels()) by {
        if i < index {
            assert(ws.layer_data[i].wf(ws.pixels()));
        } else if i > index {
            assert(ws.layer_data[i - 1].wf(ws.pixels()));
        }
    }
    assert forall|i: int| 0 <= i < stack.layers.len() implies (
    #[trigger] stack.layers[i]).opacity <= OPACITY_ONE by {
        if i < index {
            assert(ws.layers[i].opacity <= OPACITY_ONE);
        } else if i > index {
            assert(ws.layers[i - 1].opacity <= OPACITY_ONE);
        }
    }
}

/// Removing a layer keeps the workspace well formed.
pub proof fn lemma_removed_wf(ws: WorkspaceView, index: int)
    requires
        ws.wf(),
        0 <= index < ws.layers.len(),
    ensures
        ws.with_layer_removed(index).wf(),
{
    let stack = ws.with_layer_removed(index);
    assert forall|i: int| 0 <= i < stack.layer_data.len() implies (
    #[trigger] stack.layer_data[i]).wf(stack.pixels()) by {
        if i < index {
            assert(ws.layer_data[i].wf(ws.pixels()));
        } else {
            assert(ws.layer_data[i + 1].wf(ws.pixels()));
        }
    }
    assert forall|i: int| 0 <= i < stack.layers.len() implies (
    #[trigger] stack.layers[i]).opacity <= OPACITY_ONE by {
        if i < index {
            assert(ws.layers[i].opacity <= OPACITY_ONE);
        } else {
            assert(ws.layers[i + 1].opacity <= OPACITY_ONE);
        }
    }
}

/// Taking a layer out keeps the stack composable.
pub proof fn lemma_removed_composable(ws: WorkspaceView, index: int)
    requires
        ws.composable_from(0),
        0 <= index < ws.layers.len(),
    ensures
        ws.with_layer_removed(index).composable_from(0),
{
    let stack = ws.with_layer_removed(index);
    assert forall|i: int|
        0 <= i < stack.layers.len() && (
        #[trigger] stack.layers[i]).visible implies resolved_blend_mode(
        stack.layers[i].blend_mode,
    ) is Some by {
        if i < index {
            assert(ws.layers[i].visible);
        } else {
            assert(ws.layers[i + 1].visible);
        }
    }
}

/// Putting in a layer that is hidden or names a known blend mode keeps the
/// stack composable.
pub proof fn lemma_inserted_composable(
    ws: WorkspaceView,
    index: int,
    info: LayerInfoView,
    data: LayerDataView,
)
    requires
        ws.composable_from(0),
        0 <= index <= ws.layers.len(),
        info.visible ==> resolved_blend_mode(info.blend_mode) is Some,
    ensures
        ws.with_layer_inserted(index, info, data).composable_from(0),
{
    let stack = ws.with_layer_inserted(index, info, data);
    assert forall|i: int|
        0 <= i < stack.layers.len() && (
        #[trigger] stack.layers[i]).visible implies resolved_blend_mode(
        stack.layers[i].blend_mode,
    ) is Some by {
        if i < index {
            assert(ws.layers[i].visible);
        } else if i > index {
            assert(ws.layers[i - 1].visible);
        }
    }
}

impl Clone for Workspace {
    fn clone(&self) -> (r: Self)
        ensures
            r@ == self@,
    {
        let mut layers: Vec<LayerInfo> = Vec::with_capacity(self.layers.len());
        let mut i: usize = 0;
        while i < self.layers.len()
            invariant
                i <= self.layers@.len(),
                layers@.len() == i,
                forall|k: int| 0 <= k < i ==> (#[trigger] layers@[k])@ == self.layers@[k]@,
            decreases self.layers@.len() - i,
        {
            layers.push(self.layers[i].clone());
            i += 1;
        }
        let mut layer_data: Vec<LayerData> = Vec::with_capacity(self.layer_data.len());
        let mut j: usize = 0;
        while j < self.layer_data.len()
            invariant
                j <= self.layer_data@.len(),
                layer_data@.len() == j,
                forall|k: int|
                    0 <= k < j ==> (#[trigger] layer_data@[k])@ == self.layer_data@[k]@,
            decreases self.layer_data@.len() - j,
        {
            layer_data.push(self.layer_data[j].clone());
            j += 1;
        }
        let output_texture = match &self.output_texture {
            Some(image) => Some(copy_bytes(image)),
            None => None,
        };
        let copy = Workspace {
            size: self.size,
            zoom: self.zoom,
            pixel_at_center: self.pixel_at_center,
            layers,
            layer_data,
            output_texture,
            selected_layer: self.selected_layer,
        };
        assert(copy@.layers =~= self@.layers);
        assert(copy@.layer_data =~= self@.layer_data);
        copy
    }
}

impl Default for Workspace {
    /// An empty workspace of 512 by 512 pixels, viewed at zoom 1.0 and
    /// centered on the canvas's middle.
    fn default() -> (r: Self)
        ensures
            r.wf(),
            r@.size == (512u32, 512u32),
            r@.zoom == 0x3F80_0000u32,
            r@.pixel_at_center == (0x4380_0000u32, 0x4380_0000u32),
            r@.layers.len() == 0,
            r@.layer_data.len() == 0,
            r@.output_texture is None,
            r@.selected_layer is None,
    {
        Self {
            size: (512, 512),
            zoom: 0x3F80_0000,
            pixel_at_center: (0x4380_0000, 0x4380_0000),
            layers: Vec::new(),
            layer_data: Vec::new(),
            output_texture: None,
            selected_layer: None,
        }
    }
}

impl Workspace {
    /// Creates a layer and puts it at `index`, or on top of the stack where
    /// no index is given, then recomputes the composite from the new layer
    /// upward.
    pub fn create_layer(&mut self, info: LayerCreationInfo, index: Option<usize>)
        requires
            old(self).wf(),
            info.fits(old(self).size),
            index matches Some(i) ==> i <= old(self).layers.len(),
            ({
                let at = match index {
                    Some(i) => i as int,
                    None => old(self).layers.len() as int,
                };
                let stack = old(self)@.with_layer_inserted(
                    at,
                    info.info(),
                    info.layer_data(old(self)@.pixels()),
                );
                stack.composable_from(stack.effective_start(at))
            }),
        ensures
            ({
                let at = match index {
                    Some(i) => i as int,
                    None => old(self).layers.len() as int,
                };
                let stack = old(self)@.with_layer_inserted(
                    at,
                    info.info(),
                    info.layer_data(old(self)@.pixels()),
                );
                &&& final(self)@ == stack.recomputed(at)
                &&& final(self).wf()
                &&& final(self)@.same_stack(stack)
                &&& old(self).output_texture is None || old(self)@.clean_below(at)
                    ==> final(self)@.composited()
            }),
    {
        let ghost before = self@;
        let ghost pixels = self@.pixels();
        let count = self.pixel_count();
        let mut info = info;
        let ghost wanted_info = info.info();
        let ghost wanted_data = info.layer_data(pixels);
        let texture: Vec<u8> = if let Some(buffer) = info.init_texture.take() {
            buffer
        } else if let Some(image) = info.init_image.take() {
            image.data
        } else if let Some(rgba) = info.init_rgba.take() {
            fill_rgba(count, rgba)
        } else {
            fill_rgba(count, UNPAINTED)
        };
        let mask: Vec<u8> = if let Some(buffer) = info.init_mask_texture.take() {
            buffer
        } else if let Some(image) = info.init_mask_image.take() {
            image.data
        } else if let Some(luma) = info.init_mask_luma.take() {
            fill_luma(count, luma)
        } else {
            fill_luma(count, 255)
        };
        let running_total = fill_luma(4 * count, 0);
        let layer_data = LayerData { texture, mask, running_total };
        let layer_info = LayerInfo::from(info);
        proof {
            assert(layer_info@ == wanted_info);
        }
        let at: usize = match index {
            Some(i) => i,
            None => self.layers.len(),
        };
        self.layers.insert(at, layer_info);
        self.layer_data.insert(at, layer_data);
        proof {
            let stack = before.with_layer_inserted(at as int, wanted_info, wanted_data);
            assert(self@.layers =~= stack.layers);
            assert(self@.layer_data =~= stack.layer_data);
            lemma_inserted_wf(before, at as int, wanted_info, wanted_data);
            if before.clean_below(at as int) {
                lemma_clean_carries_over(before, stack, at as int);
            }
        }
        self.recalculate_output_texture(at);
    }

    /// Takes the layer at `from` out of the stack and puts it back at `to`,
    /// then recomputes the composite from the lower of the two upward.
    pub fn move_layer(&mut self, from: usize, to: usize)
        requires
            old(self).wf(),
            from < old(self).layers.len(),
            to < old(self).layers.len(),
            ({
                let stack = old(self)@.with_layer_moved(from as int, to as int);
                stack.composable_from(
                    stack.effective_start(
                        if from < to {
                            from as int
                        } else {
                            to as int
                        },
                    ),
                )
            }),
        ensures
            ({
                let stack = old(self)@.with_layer_moved(from as int, to as int);
                let start = if from < to {
                    from as int
                } else {
                    to as int
                };
                &&& final(self)@ == stack.recomputed(start)
                &&& final(self).wf()
                &&& final(self)@.same_stack(stack)
                &&& old(self).output_texture is None || old(self)@.clean_below(start)
                    ==> final(self)@.composited()
            }),
    {
        let ghost before = self@;
        let info = self.layers.remove(from);
        self.layers.insert(to, info);
        let layer_data = self.layer_data.remove(from);
        self.layer_data.insert(to, layer_data);
        let start: usize = if from < to {
            from
        } else {
            to
        };
        proof {
            let stack = before.with_layer_moved(from as int, to as int);
            assert(self@.layers =~= stack.layers);
            assert(self@.layer_data =~= stack.layer_data);
            lemma_removed_wf(before, from as int);
            lemma_inserted_wf(
                before.with_layer_removed(from as int),
                to as int,
                before.layers[from as int],
                before.layer_data[from as int],
            );
            if before.clean_below(start as int) {
                lemma_clean_carries_over(before, stack, start as int);
            }
        }
        self.recalculate_output_texture(start);
    }

    /// Deletes the layer at `index` with its images, then recomputes the
    /// composite from the layer that took its place upward.
    pub fn remove_layer(&mut self, index: usize)
        requires
            old(self).wf(),
            index < old(self).layers.len(),
            ({
                let stack = old(self)@.with_layer_removed(index as int);
                stack.composable_from(stack.effective_start(index as int))
            }),
        ensures
            ({
                let stack = old(self)@.with_layer_removed(index as int);
                &&& final(self)@ == stack.recomputed(index as int)
                &&& final(self).wf()
                &&& final(self)@.same_stack(stack)
                &&& old(self).output_texture is None || old(self)@.clean_below(index as int)
                    ==> final(self)@.composited()
            }),
    {
        let ghost before = self@;
        let _ = self.layers.remove(index);
        let _ = self.layer_data.remove(index);
        proof {
            let stack = before.with_layer_removed(index as int);
            assert(self@.layers =~= stack.layers);
            assert(self@.layer_data =~= stack.layer_data);
            lemma_removed_wf(before, index as int);
            if before.clean_below(index as int) {
                lemma_clean_carries_over(before, stack, index as int);
            }
        }
        self.refresh_from(index);
    }

    /// Replaces the mask of the layer at `index`, then recomputes the
    /// composite from that layer upward.
    pub fn set_layer_mask(&mut self, index: usize, mask: Vec<u8>)
        requires
            old(self).wf(),
            index < old(self).layers.len(),
            mask@.len() == old(self)@.pixels(),
            old(self)@.composable_from(old(self)@.effective_start(index as int)),
        ensures
            ({
                let stack = old(self)@.with_layer_mask(index as int, mask@);
                &&& final(self)@ == stack.recomputed(index as int)
                &&& final(self).wf()
                &&& final(self)@.same_stack(stack)
                &&& old(self).output_texture is None || old(self)@.clean_below(index as int)
                    ==> final(self)@.composited()
            }),
    {
        let ghost before = self@;
        let ghost pixels = self@.pixels();
        let ghost wanted = mask@;
        self.layer_data[index].mask = mask;
        proof {
            let stack = before.with_layer_mask(index as int, wanted);
            assert(self@.layer_data =~= stack.layer_data);
            assert forall|i: int| 0 <= i < stack.layer_data.len() implies (
            #[trigger] stack.layer_data[i]).wf(stack.pixels()) by {
                assert(before.layer_data[i].wf(pixels));
            }
            if before.clean_below(index as int) {
                lemma_clean_carries_over(before, stack, index as int);
            }
        }
        self.recalculate_output_texture(index);
    }

    /// Replaces the metadata of the layer at `index`, then recomputes the
    /// composite from that layer upward.
    pub fn set_layer_info(&mut self, index: usize, info: LayerInfo)
        requires
            old(self).wf(),
            index < old(self).layers.len(),
            info.opacity <= OPACITY_ONE,
            ({
                let stack = old(self)@.with_layer_info(index as int, info@);
                stack.composable_from(stack.effective_start(index as int))
            }),
        ensures
            ({
                let stack = old(self)@.with_layer_info(index as int, info@);
                &&& final(self)@ == stack.recomputed(index as int)
                &&& final(self).wf()
                &&& final(self)@.same_stack(stack)
                &&& old(self).output_texture is None || old(self)@.clean_below(index as int)
                    ==> final(self)@.composited()
            }),
    {
        let ghost before = self@;
        let ghost wanted = info@;
        self.layers[index] = info;
        proof {
            let stack = before.with_layer_info(index as int, wanted);
            assert(self@.layers =~= stack.layers);
            assert forall|i: int| 0 <= i < stack.layer_data.len() implies (
            #[trigger] stack.layer_data[i]).wf(stack.pixels()) by {
                assert(before.layer_data[i].wf(before.pixels()));
            }
            assert forall|i: int| 0 <= i < stack.layers.len() implies (
            #[trigger] stack.layers[i]).opacity <= OPACITY_ONE by {
                if i != index {
                    assert(before.layers[i].opacity <= OPACITY_ONE);
                }
            }
            if before.clean_below(index as int) {
                lemma_clean_carries_over(before, stack, index as int);
            }
        }
        self.recalculate_output_texture(index);
    }

    /// Merges the layer at `index` into the layer beneath it: lays it over
    /// that layer's color as the compositor would, deletes it with its
    /// images, and recomputes the composite from the layer beneath upward.
    pub fn merge_layer_down(&mut self, index: usize)
        requires
            old(self).wf(),
            0 < index < old(self).layers.len(),
            resolved_blend_mode(old(self)@.layers[index as int].blend_mode) is Some,
            ({
                let stack = old(self)@.with_layer_merged_down(index as int);
                stack.composable_from(stack.effective_start(index - 1))
            }),
        ensures
            ({
                let stack = old(self)@.with_layer_merged_down(index as int);
                &&& final(self)@ == stack.recomputed(index - 1)
                &&& final(self).wf()
                &&& final(self)@.same_stack(stack)
                &&& old(self).output_texture is None || old(self)@.clean_below(index - 1)
                    ==> final(self)@.composited()
            }),
    {
        let ghost before = self@;
        let ghost pixels = self@.pixels();
        proof {
            assert(before.layer_data[index as int].wf(pixels));
        }
        let function = resolve_blend_mode(self.layers[index].blend_mode.as_str());
        match function {
            Some(BlendFunction::Normal) => {
                let merged = blend_normal(
                    Some(&self.layer_data[index - 1].texture),
                    &self.layer_data[index].texture,
                    &self.layer_data[index].mask,
                    self.layers[index].opacity,
                );
                self.layer_data[index - 1].texture = merged;
            },
            None => {},
        }
        let ghost painted = self@;
        proof {
            assert forall|i: int| 0 <= i < painted.layer_data.len() implies (
            #[trigger] painted.layer_data[i]).wf(painted.pixels()) by {
                assert(before.layer_data[i].wf(pixels));
            }
        }
        let _ = self.layers.remove(index);
        let _ = self.layer_data.remove(index);
        proof {
            let stack = before.with_layer_merged_down(index as int);
            assert(self@.layers =~= stack.layers);
            assert(self@.layer_data =~= stack.layer_data);
            lemma_removed_wf(painted, index as int);
            if before.clean_below(index - 1) {
                lemma_clean_carries_over(before, stack, index - 1);
            }
        }
        self.refresh_from(index - 1);
    }

    /// Whether the workspace is well formed.
    pub fn is_well_formed(&self) -> (r: bool)
        ensures
            r == self.wf(),
    {
        let ghost ws = self@;
        assert(self.size.0 as nat * self.size.1 as nat <= 0xFFFF_FFFF * 0xFFFF_FFFF)
            by (nonlinear_arith)
            requires
                self.size.0 <= 0xFFFF_FFFF,
                self.size.1 <= 0xFFFF_FFFF,
        ;
        let wide: u64 = (self.size.0 as u64) * (self.size.1 as u64);
        if wide > (usize::MAX / 4) as u64 {
            return false;
        }
        let count: usize = wide as usize;
        let n = self.layers.len();
        if self.layer_data.len() != n {
            return false;
        }
        if let Some(image) = &self.output_texture {
            if image.len() != 4 * count {
                return false;
            }
        }
        let mut i: usize = 0;
        while i < n
            invariant
                ws == self@,
                n == self.layers@.len(),
                n == self.layer_data@.len(),
                count == ws.pixels(),
                4 * count <= usize::MAX,
                i <= n,
                forall|k: int| 0 <= k < i ==> (#[trigger] ws.layer_data[k]).wf(ws.pixels()),
                forall|k: int| 0 <= k < i ==> (#[trigger] ws.layers[k]).opacity <= OPACITY_ONE,
            decreases n - i,
        {
            let data = &self.layer_data[i];
            assert(ws.layer_data[i as int] == data@);
            assert(ws.layers[i as int] == self.layers@[i as int]@);
            if data.texture.len() != 4 * count || data.mask.len() != count
                || data.running_total.len() != 4 * count {
                return false;
            }
            if self.layers[i].opacity > OPACITY_ONE {
                return false;
            }
            i += 1;
        }
        true
    }

    /// Whether every visible layer from `start` upward names a blend mode
    /// that is known.
    pub fn is_composable_from(&self, start: usize) -> (r: bool)
        ensures
            r == self@.composable_from(start as int),
    {
        let ghost ws = self@;
        let n = self.layers.len();
        let mut i: usize = start;
        while i < n
            invariant
                ws == self@,
                n == self.layers@.len(),
                start <= i,
                forall|k: int|
                    start <= k < i && k < n && (#[trigger] ws.layers[k]).visible
                        ==> resolved_blend_mode(ws.layers[k].blend_mode) is Some,
            decreases n - i,
        {
            let layer = &self.layers[i];
            assert(ws.layers[i as int] == layer@);
            if layer.visible && resolve_blend_mode(layer.blend_mode.as_str()).is_none() {
                return false;
            }
            i += 1;
        }
        true
    }

    /// The layers that a list of layers shows: every layer that is no
    /// scratch layer, once, the topmost first.
    pub fn listed_layers(&self) -> (r: Vec<usize>)
        ensures
            r@ == listed(self@.layers, self@.layers.len() as int),
            forall|k: int|
                0 <= k < r@.len() ==> (#[trigger] r@[k]) < self@.layers.len()
                    && !self@.layers[r@[k] as int].is_tool_layer,
            forall|j: int, k: int| 0 <= j < k < r@.len() ==> r@[j] > r@[k],
            forall|i: int|
                0 <= i < self@.layers.len() && !(#[trigger] self@.layers[i]).is_tool_layer
                    ==> r@.contains(i as usize),
    {
        let ghost layers = self@.layers;
        let n = self.layers.len();
        proof {
            lemma_listed(layers, n as int);
        }
        let mut shown: Vec<usize> = Vec::new();
        let mut left: usize = n;
        while left > 0
            invariant
                layers == self@.layers,
                n == self.layers@.len(),
                left <= n,
                listed(layers, n as int) == shown@ + listed(layers, left as int),
            decreases left,
        {
            left -= 1;
            if !self.layers[left].is_tool_layer {
                shown.push(left);
            }
        }
        shown
    }
}

/// The indices below `n` of the layers that are no scratch layers, the
/// highest first.
pub open spec fn listed(layers: Seq<LayerInfoView>, n: int) -> Seq<usize>
    decreases n,
{
    if n <= 0 {
        Seq::empty()
    } else if layers[n - 1].is_tool_layer {
        listed(layers, n - 1)
    } else {
        seq![(n - 1) as usize] + listed(layers, n - 1)
    }
}

/// A list of layers shows every layer that is no scratch layer, once, and
/// nothing else, from the top of the stack down.
pub proof fn lemma_listed(layers: Seq<LayerInfoView>, n: int)
    requires
        0 <= n <= layers.len(),
        n <= usize::MAX,
    ensures
        forall|k: int|
            0 <= k < listed(layers, n).len() ==> 0 <= (#[trigger] listed(layers, n)[k]) < n
                && !layers[listed(layers, n)[k] as int].is_tool_layer,
        forall|j: int, k: int|
            0 <= j < k < listed(layers, n).len() ==> listed(layers, n)[j] > listed(layers, n)[k],
        forall|i: int|
            0 <= i < n && !(#[trigger] layers[i]).is_tool_layer ==> listed(layers, n).contains(
                i as usize,
            ),
    decreases n,
{
    if n > 0 {
        lemma_listed(layers, n - 1);
        let lower = listed(layers, n - 1);
        let all = listed(layers, n);
        if !layers[n - 1].is_tool_layer {
            assert forall|k: int| 1 <= k < all.len() implies all[k] == lower[k - 1] by {}
            assert forall|i: int|
                0 <= i < n && !(#[trigger] layers[i]).is_tool_layer implies all.contains(
                i as usize,
            ) by {
                if i == n - 1 {
                    assert(all[0] == i as usize);
                } else {
                    let k = choose|k: int| 0 <= k < lower.len() && lower[k] == i as usize;
                    assert(all[k + 1] == i as usize);
                }
            }
        }
    }
}

} // verus!
