//! The compositor: blends the stack bottom to top, keeping for every visible
//! layer the composite of the stack up to and including it, so that after a
//! change only the layers from the changed one upward are blended again.
//!
//! A hidden layer is passed over: its cache is neither written nor read, and
//! the running total above it is the running total below it.

use crate::blend::{
    applied, blend_normal, lemma_blended_opacity_zero, lemma_blended_opaque, resolve_blend_mode,
    resolved_blend_mode, transparent, BlendFunction, OPACITY_ONE,
};
use crate::raster::{copy_bytes, fill_luma};
use crate::workspace::layer_info::LayerInfoView;
use crate::workspace::{LayerDataView, Workspace, WorkspaceView};
use vstd::prelude::*;

verus! {

impl WorkspaceView {
    /// Number of pixels of the canvas.
    pub open spec fn pixels(self) -> nat {
        self.size.0 as nat * self.size.1 as nat
    }

    /// Number of bytes of a color image of the canvas.
    pub open spec fn color_len(self) -> nat {
        4 * self.pixels()
    }

    /// The two collections are in step, every image has the size of the
    /// canvas, every opacity is a fraction of one, and a color image fits in
    /// memory.
    pub open spec fn wf(self) -> bool {
        &&& self.color_len() <= usize::MAX
        &&& self.layers.len() == self.layer_data.len()
        &&& forall|i: int|
            0 <= i < self.layer_data.len() ==> (#[trigger] self.layer_data[i]).wf(self.pixels())
        &&& forall|i: int|
            0 <= i < self.layers.len() ==> (#[trigger] self.layers[i]).opacity <= OPACITY_ONE
        &&& self.output_texture matches Some(image) ==> image.len() == self.color_len()
    }

    /// Every visible layer from `start` upward names a blend mode that is
    /// known.
    pub open spec fn composable_from(self, start: int) -> bool {
        forall|i: int|
            start <= i < self.layers.len() && (#[trigger] self.layers[i]).visible
                ==> resolved_blend_mode(self.layers[i].blend_mode) is Some
    }

    /// Layer `i` laid over `base` by the blend function that it names.
    pub open spec fn blend_layer(self, i: int, base: Seq<u8>) -> Seq<u8> {
        match resolved_blend_mode(self.layers[i].blend_mode) {
            Some(function) => applied(
                function,
                base,
                self.layer_data[i].texture,
                self.layer_data[i].mask,
                self.layers[i].opacity,
            ),
            None => base,
        }
    }

    /// The composite of the lowest `n` layers, from their colors, masks and
    /// metadata alone: the transparent image with every visible layer laid
    /// over it in stack order.
    pub open spec fn composite(self, n: int) -> Seq<u8>
        decreases n,
    {
        if n <= 0 {
            transparent(self.color_len())
        } else if self.layers[n - 1].visible {
            self.blend_layer(n - 1, self.composite(n - 1))
        } else {
            self.composite(n - 1)
        }
    }

    /// The running total below layer `n` as the caches stand: the cache of
    /// the nearest visible layer under `n`, or the transparent image where
    /// there is none.
    pub open spec fn running_total_below(self, n: int) -> Seq<u8>
        decreases n,
    {
        if n <= 0 {
            transparent(self.color_len())
        } else if self.layers[n - 1].visible {
            self.layer_data[n - 1].running_total
        } else {
            self.running_total_below(n - 1)
        }
    }

    /// The cache of layer `i` once the stack has been recomputed from
    /// `start`: untouched below `start` and for a hidden layer, else the
    /// layer laid over the running total below it.
    pub open spec fn cache_after(self, start: int, i: int) -> Seq<u8>
        decreases i, 1int,
    {
        if 0 <= i && start <= i && self.layers[i].visible {
            self.blend_layer(i, self.total_after(start, i))
        } else {
            self.layer_data[i].running_total
        }
    }

    /// The running total below layer `n` once the stack has been recomputed
    /// from `start`.
    pub open spec fn total_after(self, start: int, n: int) -> Seq<u8>
        decreases n, 0int,
    {
        if n <= 0 {
            transparent(self.color_len())
        } else if self.layers[n - 1].visible {
            self.cache_after(start, n - 1)
        } else {
            self.total_after(start, n - 1)
        }
    }

    /// The stack with the caches of the layers from `start` up to, not
    /// including, `end` recomputed.
    pub open spec fn with_caches_through(self, start: int, end: int) -> WorkspaceView {
        WorkspaceView {
            layer_data: Seq::new(
                self.layer_data.len(),
                |i: int|
                    if i < end {
                        LayerDataView {
                            running_total: self.cache_after(start, i),
                            ..self.layer_data[i]
                        }
                    } else {
                        self.layer_data[i]
                    },
            ),
            ..self
        }
    }

    /// The workspace recomputed from layer `start`: the caches from `start`
    /// upward are rebuilt in ascending order, and the output is the running
    /// total of the whole stack.
    pub open spec fn recomputed_from(self, start: int) -> WorkspaceView {
        WorkspaceView {
            output_texture: Some(self.total_after(start, self.layers.len() as int)),
            ..self.with_caches_through(start, self.layers.len() as int)
        }
    }

    /// What a recompute from `start` leaves. A workspace that has no output
    /// yet has never been composited, and is recomputed from the bottom.
    pub open spec fn recomputed(self, start: int) -> WorkspaceView {
        if self.output_texture is None {
            self.recomputed_from(0)
        } else {
            self.recomputed_from(start)
        }
    }

    /// The cache of layer `i` is what the colors, masks and metadata of the
    /// layers up to `i` make it. Nothing is asked of a hidden layer's cache.
    pub open spec fn cache_valid(self, i: int) -> bool {
        self.layers[i].visible ==> self.layer_data[i].running_total == self.composite(i + 1)
    }

    /// The caches of all layers below `k` are valid.
    pub open spec fn clean_below(self, k: int) -> bool {
        forall|i: int| 0 <= i < k ==> self.cache_valid(i)
    }

    /// Every cache is valid and the output is the composite of the whole
    /// stack.
    pub open spec fn composited(self) -> bool {
        &&& self.clean_below(self.layers.len() as int)
        &&& self.output_texture == Some(self.composite(self.layers.len() as int))
    }

    /// Two workspaces have the same canvas size and, for each of the lowest
    /// `n` layers, the same visibility, opacity, blend mode, color and mask:
    /// all that compositing reads. Caches may differ.
    pub open spec fn same_stack_below(self, other: WorkspaceView, n: int) -> bool {
        &&& self.size == other.size
        &&& forall|i: int|
            0 <= i < n ==> {
                &&& (#[trigger] self.layers[i]).visible == other.layers[i].visible
                &&& self.layers[i].opacity == other.layers[i].opacity
                &&& self.layers[i].blend_mode == other.layers[i].blend_mode
                &&& self.layer_data[i].texture == other.layer_data[i].texture
                &&& self.layer_data[i].mask == other.layer_data[i].mask
            }
    }

    /// Two workspaces hold the same stack: the same canvas size and as many
    /// layers, each with the same visibility, opacity, blend mode, color and
    /// mask. Caches and output may differ.
    pub open spec fn same_stack(self, other: WorkspaceView) -> bool {
        &&& self.layers.len() == other.layers.len()
        &&& self.layer_data.len() == other.layer_data.len()
        &&& self.same_stack_below(other, self.layers.len() as int)
    }
}

/// A blended layer has the size of the canvas.
pub proof fn lemma_blend_layer_len(ws: WorkspaceView, i: int, base: Seq<u8>)
    requires
        ws.wf(),
        0 <= i < ws.layers.len(),
        base.len() == ws.color_len(),
    ensures
        ws.blend_layer(i, base).len() == ws.color_len(),
{
    assert(ws.layer_data[i].wf(ws.pixels()));
}

/// Every composite has the size of the canvas.
pub proof fn lemma_composite_len(ws: WorkspaceView, n: int)
    requires
        ws.wf(),
        n <= ws.layers.len(),
    ensures
        ws.composite(n).len() == ws.color_len(),
    decreases n,
{
    if n > 0 {
        lemma_composite_len(ws, n - 1);
        if ws.layers[n - 1].visible {
            lemma_blend_layer_len(ws, n - 1, ws.composite(n - 1));
        }
    }
}

/// Recomputed caches and running totals have the size of the canvas.
pub proof fn lemma_after_len(ws: WorkspaceView, start: int, n: int)
    requires
        ws.wf(),
        0 <= n <= ws.layers.len(),
    ensures
        ws.total_after(start, n).len() == ws.color_len(),
        n < ws.layers.len() ==> ws.cache_after(start, n).len() == ws.color_len(),
    decreases n,
{
    if n > 0 {
        lemma_after_len(ws, start, n - 1);
    }
    if n < ws.layers.len() {
        if start <= n && ws.layers[n].visible {
            lemma_blend_layer_len(ws, n, ws.total_after(start, n));
        }
    }
}

/// Below `start` a recompute reads the caches as they stand.
pub proof fn lemma_total_after_below_start(ws: WorkspaceView, start: int, n: int)
    requires
        n <= start,
    ensures
        ws.total_after(start, n) == ws.running_total_below(n),
    decreases n,
{
    if n > 0 {
        if ws.layers[n - 1].visible {
            assert(ws.total_after(start, n) == ws.cache_after(start, n - 1));
        } else {
            lemma_total_after_below_start(ws, start, n - 1);
        }
    }
}

/// Where the caches below `start` are valid, a recompute from `start` makes
/// every running total the composite of the layers below it.
pub proof fn lemma_total_after_is_composite(ws: WorkspaceView, start: int, n: int)
    requires
        ws.clean_below(start),
    ensures
        ws.total_after(start, n) == ws.composite(n),
        0 <= n && ws.layers[n].visible ==> ws.cache_after(start, n) == ws.composite(n + 1),
    decreases n,
{
    if n > 0 {
        lemma_total_after_is_composite(ws, start, n - 1);
        if ws.layers[n - 1].visible {
            assert(ws.total_after(start, n) == ws.cache_after(start, n - 1));
        } else {
            assert(ws.total_after(start, n) == ws.total_after(start, n - 1));
        }
    }
    if 0 <= n && ws.layers[n].visible {
        if n < start {
            assert(ws.cache_valid(n));
            assert(ws.cache_after(start, n) == ws.layer_data[n].running_total);
        } else {
            assert(ws.cache_after(start, n) == ws.blend_layer(n, ws.total_after(start, n)));
        }
    }
}

/// The running total of a recomputed workspace, read from its caches, is the
/// total that the recompute defines.
pub proof fn lemma_recomputed_running_total(ws: WorkspaceView, start: int, n: int)
    requires
        0 <= n <= ws.layers.len(),
        ws.layers.len() == ws.layer_data.len(),
    ensures
        ws.recomputed_from(start).running_total_below(n) == ws.total_after(start, n),
    decreases n,
{
    if n > 0 {
        if !ws.layers[n - 1].visible {
            lemma_recomputed_running_total(ws, start, n - 1);
        }
    }
}

/// The output of a recompute is the running total of the whole stack as the
/// caches then stand: the cache of the topmost layer where that layer is
/// visible.
pub proof fn lemma_recomputed_output(ws: WorkspaceView, start: int)
    requires
        ws.layers.len() == ws.layer_data.len(),
    ensures
        ws.recomputed(start).output_texture == Some(
            ws.recomputed(start).running_total_below(ws.layers.len() as int),
        ),
        ws.layers.len() > 0 && ws.layers.last().visible ==> ws.recomputed(start).output_texture
            == Some(ws.recomputed(start).layer_data.last().running_total),
{
    let count = ws.layers.len() as int;
    lemma_recomputed_running_total(ws, 0, count);
    lemma_recomputed_running_total(ws, start, count);
}

/// The composite of the lowest `n` layers depends on those layers alone, and
/// not on their caches.
pub proof fn lemma_composite_agrees(a: WorkspaceView, b: WorkspaceView, n: int)
    requires
        a.same_stack_below(b, n),
    ensures
        a.composite(n) == b.composite(n),
    decreases n,
{
    if n > 0 {
        lemma_composite_agrees(a, b, n - 1);
    }
}

/// Valid caches stay valid in a workspace that holds the same layers, caches
/// included, below `k`.
pub proof fn lemma_clean_carries_over(a: WorkspaceView, b: WorkspaceView, k: int)
    requires
        a.same_stack_below(b, k),
        forall|i: int|
            0 <= i < k ==> (#[trigger] a.layer_data[i]).running_total
                == b.layer_data[i].running_total,
        a.clean_below(k),
    ensures
        b.clean_below(k),
{
    assert forall|i: int| 0 <= i < k implies b.cache_valid(i) by {
        assert(a.cache_valid(i));
        lemma_composite_agrees(a, b, i + 1);
    }
}

/// A recompute keeps the workspace well formed and the stack as it is.
pub proof fn lemma_recomputed_wf(ws: WorkspaceView, start: int)
    requires
        ws.wf(),
    ensures
        ws.recomputed_from(start).wf(),
        ws.recomputed_from(start).same_stack(ws),
        ws.recomputed(start).wf(),
        ws.recomputed(start).same_stack(ws),
{
    let n = ws.layers.len() as int;
    assert forall|s: int| #![auto] ws.recomputed_from(s).wf() && ws.recomputed_from(s).same_stack(
        ws,
    ) by {
        let after = ws.recomputed_from(s);
        lemma_after_len(ws, s, n);
        assert forall|i: int| 0 <= i < after.layer_data.len() implies (
        #[trigger] after.layer_data[i]).wf(after.pixels()) by {
            lemma_after_len(ws, s, i);
        }
    }
}

/// After a recompute from `start` over valid caches below `start`, every
/// cache is valid and the output is the composite of the whole stack.
pub proof fn lemma_recomputed_composited(ws: WorkspaceView, start: int)
    requires
        ws.layers.len() == ws.layer_data.len(),
        ws.clean_below(start),
    ensures
        ws.recomputed_from(start).composited(),
{
    let n = ws.layers.len() as int;
    let after = ws.recomputed_from(start);
    lemma_total_after_is_composite(ws, start, n);
    lemma_composite_agrees(after, ws, n);
    assert forall|i: int| 0 <= i < n implies after.cache_valid(i) by {
        lemma_total_after_is_composite(ws, start, i);
        lemma_composite_agrees(after, ws, i + 1);
    }
}

/// Recomputing a workspace whose caches below `start` are valid gives what
/// recomputing it from the bottom gives.
pub proof fn lemma_recompute_from_clean(ws: WorkspaceView, start: int)
    requires
        ws.layers.len() == ws.layer_data.len(),
        ws.clean_below(start),
    ensures
        ws.recomputed_from(start) == ws.recomputed_from(0),
{
    let n = ws.layers.len() as int;
    let partial = ws.recomputed_from(start);
    let full = ws.recomputed_from(0);
    lemma_total_after_is_composite(ws, start, n);
    lemma_total_after_is_composite(ws, 0, n);
    assert forall|i: int| 0 <= i < n implies partial.layer_data[i] == full.layer_data[i] by {
        lemma_total_after_is_composite(ws, start, i);
        lemma_total_after_is_composite(ws, 0, i);
    }
    assert(partial.layer_data =~= full.layer_data);
}

/// Recomputing a composited workspace changes nothing, wherever it starts.
pub proof fn lemma_recompute_composited_is_identity(ws: WorkspaceView, start: int)
    requires
        ws.layers.len() == ws.layer_data.len(),
        ws.composited(),
        start <= ws.layers.len(),
    ensures
        ws.recomputed(start) == ws,
{
    let n = ws.layers.len() as int;
    let after = ws.recomputed_from(start);
    assert forall|k: int| 0 <= k < start implies ws.cache_valid(k) by {
        assert(ws.cache_valid(k));
    }
    lemma_total_after_is_composite(ws, start, n);
    assert forall|i: int| 0 <= i < n implies after.layer_data[i] == ws.layer_data[i] by {
        lemma_total_after_is_composite(ws, start, i);
        assert(ws.cache_valid(i));
    }
    assert(after.layer_data =~= ws.layer_data);
}

/// Compositing from the bottom is a function of the stack alone: two
/// workspaces that hold the same canvas and the same layers get the same
/// output, whatever their caches and outputs held before. And compositing a
/// second time changes nothing: the second output is the first, byte for
/// byte.
pub proof fn recompute_is_deterministic(a: WorkspaceView, b: WorkspaceView)
    requires
        a.wf(),
        b.wf(),
        a.same_stack(b),
    ensures
        a.recomputed(0).output_texture == b.recomputed(0).output_texture,
        a.recomputed(0).recomputed(0) == a.recomputed(0),
{
    let n = a.layers.len() as int;
    lemma_total_after_is_composite(a, 0, n);
    lemma_total_after_is_composite(b, 0, n);
    lemma_composite_agrees(a, b, n);
    lemma_recomputed_composited(a, 0);
    lemma_recompute_composited_is_identity(a.recomputed_from(0), 0);
}

/// After a full composite, changing the metadata of layer `k` alone and
/// recomputing from `k` leaves the workspace, caches and output, exactly as
/// recomputing the changed stack from the bottom does.
pub proof fn incremental_recompute_agrees(ws: WorkspaceView, k: int, info: LayerInfoView)
    requires
        ws.wf(),
        0 <= k < ws.layers.len(),
    ensures
        ws.recomputed(0).with_layer_info(k, info).recomputed(k) == ws.recomputed(0).with_layer_info(
            k,
            info,
        ).recomputed(0),
{
    let full = ws.recomputed_from(0);
    let edited = full.with_layer_info(k, info);
    lemma_recomputed_composited(ws, 0);
    assert forall|i: int| 0 <= i < k implies full.cache_valid(i) by {}
    lemma_clean_carries_over(full, edited, k);
    lemma_recompute_from_clean(edited, k);
}

/// A hidden layer is passed over: the running total above it is the running
/// total below it, a recompute leaves its cache as it was, and nothing that
/// its color, mask or cache holds reaches the output.
pub proof fn hidden_layer_passes_through(
    ws: WorkspaceView,
    i: int,
    start: int,
    data: LayerDataView,
)
    requires
        ws.wf(),
        0 <= i < ws.layers.len(),
        !ws.layers[i].visible,
    ensures
        ws.composite(i + 1) == ws.composite(i),
        ws.total_after(start, i + 1) == ws.total_after(start, i),
        ws.recomputed_from(start).layer_data[i] == ws.layer_data[i],
        ws.with_layer_data(i, data).recomputed_from(start).output_texture == ws.recomputed_from(
            start,
        ).output_texture,
{
    lemma_hidden_data_is_not_read(ws, i, start, data, ws.layers.len() as int);
}

/// The running totals of a recompute do not depend on what a hidden layer
/// holds.
pub proof fn lemma_hidden_data_is_not_read(
    ws: WorkspaceView,
    i: int,
    start: int,
    data: LayerDataView,
    n: int,
)
    requires
        ws.layers.len() == ws.layer_data.len(),
        0 <= i < ws.layers.len(),
        !ws.layers[i].visible,
        n <= ws.layers.len(),
    ensures
        ws.with_layer_data(i, data).total_after(start, n) == ws.total_after(start, n),
    decreases n,
{
    let other = ws.with_layer_data(i, data);
    if n > 0 {
        lemma_hidden_data_is_not_read(ws, i, start, data, n - 1);
        if ws.layers[n - 1].visible {
            assert(ws.total_after(start, n) == ws.cache_after(start, n - 1));
            if start <= n - 1 {
                assert(other.cache_after(start, n - 1) == other.blend_layer(
                    n - 1,
                    other.total_after(start, n - 1),
                ));
                assert(ws.cache_after(start, n - 1) == ws.blend_layer(
                    n - 1,
                    ws.total_after(start, n - 1),
                ));
            } else {
                assert(other.cache_after(start, n - 1) == other.layer_data[n - 1].running_total);
            }
        } else {
            assert(other.total_after(start, n) == other.total_after(start, n - 1));
        }
    }
}

/// A topmost layer of opacity zero does not show: the output is that of the
/// stack without it.
pub proof fn transparent_top_layer_vanishes(ws: WorkspaceView)
    requires
        ws.wf(),
        ws.layers.len() >= 1,
        ws.layers.last().opacity == 0,
    ensures
        ws.recomputed(0).output_texture == ws.with_layer_removed(
            ws.layers.len() - 1,
        ).recomputed(0).output_texture,
{
    let n = ws.layers.len() as int;
    let without = ws.with_layer_removed(n - 1);
    lemma_total_after_is_composite(ws, 0, n);
    lemma_total_after_is_composite(without, 0, n - 1);
    lemma_composite_agrees(ws, without, n - 1);
    lemma_composite_len(ws, n - 1);
    lemma_blended_opacity_zero(
        ws.composite(n - 1),
        ws.layer_data[n - 1].texture,
        ws.layer_data[n - 1].mask,
    );
}

/// A visible topmost "normal" layer of full opacity under a fully opaque
/// mask covers everything below it: the output is its own color image.
pub proof fn opaque_top_layer_shows_color(ws: WorkspaceView)
    requires
        ws.wf(),
        ws.layers.len() >= 1,
        ws.layers.last().visible,
        ws.layers.last().opacity == OPACITY_ONE,
        resolved_blend_mode(ws.layers.last().blend_mode) == Some(BlendFunction::Normal),
        forall|p: int|
            0 <= p < ws.layer_data.last().mask.len() ==> ws.layer_data.last().mask[p] == 255,
    ensures
        ws.recomputed(0).output_texture == Some(ws.layer_data.last().texture),
{
    let n = ws.layers.len() as int;
    lemma_total_after_is_composite(ws, 0, n);
    assert(ws.layer_data.last() == ws.layer_data[n - 1]);
    lemma_blended_opaque(
        ws.composite(n - 1),
        ws.layer_data[n - 1].texture,
        ws.layer_data[n - 1].mask,
    );
}

/// A recompute from `start` leaves every layer below `start` as it was, its
/// cache included. So does the insertion of a layer at `start` into a
/// workspace that has been composited before.
pub proof fn recompute_keeps_lower_layers(
    ws: WorkspaceView,
    start: int,
    j: int,
    info: LayerInfoView,
    data: LayerDataView,
)
    requires
        ws.wf(),
        0 <= j < start <= ws.layers.len(),
    ensures
        ws.recomputed_from(start).layer_data[j] == ws.layer_data[j],
        ws.output_texture is Some ==> ws.with_layer_inserted(start, info, data).recomputed(
            start,
        ).layer_data[j] == ws.layer_data[j],
{
}

impl Workspace {
    /// The well-formedness of the workspace's value.
    pub open spec fn wf(&self) -> bool {
        self@.wf()
    }

    /// Number of pixels of the canvas.
    pub fn pixel_count(&self) -> (n: usize)
        requires
            self.wf(),
        ensures
            n == self@.pixels(),
            4 * n <= usize::MAX,
    {
        proof {
            assert(self.size.0 as nat * self.size.1 as nat <= 4 * (self.size.0 as nat
                * self.size.1 as nat)) by (nonlinear_arith);
        }
        (self.size.0 as usize) * (self.size.1 as usize)
    }

    /// The index of the nearest visible layer under `n`, if there is one.
    fn visible_below(&self, n: usize) -> (r: Option<usize>)
        requires
            self.wf(),
            n <= self.layers.len(),
        ensures
            (match r {
                Some(b) => b < n && self@.layers[b as int].visible && self@.running_total_below(
                    n as int,
                ) == self@.layer_data[b as int].running_total,
                None => self@.running_total_below(n as int) == transparent(self@.color_len()),
            }),
    {
        let mut b: usize = n;
        while b > 0 && !self.layers[b - 1].visible
            invariant
                b <= n <= self.layers.len(),
                self@.running_total_below(n as int) == self@.running_total_below(b as int),
            decreases b,
        {
            b -= 1;
        }
        if b > 0 {
            Some(b - 1)
        } else {
            None
        }
    }

    /// Rebuilds the caches of the layers from `start` upward, then the output.
    fn recompute(&mut self, start: usize)
        requires
            old(self).wf(),
            start <= old(self).layers.len(),
            old(self)@.composable_from(start as int),
        ensures
            final(self)@ == old(self)@.recomputed_from(start as int),
    {
        let ghost before = self@;
        let n = self.layers.len();
        let count = self.pixel_count();
        let mut base: Option<usize> = self.visible_below(start);
        proof {
            lemma_total_after_below_start(before, start as int, start as int);
            assert(self@ =~= before.with_caches_through(start as int, start as int)) by {
                assert(self@.layer_data =~= before.with_caches_through(
                    start as int,
                    start as int,
                ).layer_data);
            }
        }
        let mut i: usize = start;
        while i < n
            invariant
                before.wf(),
                before.composable_from(start as int),
                n == before.layers.len(),
                count == before.pixels(),
                start <= i <= n,
                self.layers.len() == n,
                self.layer_data.len() == n,
                self@ == before.with_caches_through(start as int, i as int),
                match base {
                    Some(b) => b < i && self@.layer_data[b as int].running_total
                        == before.total_after(start as int, i as int),
                    None => before.total_after(start as int, i as int) == transparent(
                        before.color_len(),
                    ),
                },
            decreases n - i,
        {
            let ghost current = self@;
            if self.layers[i].visible {
                proof {
                    assert(current.layer_data[i as int] == before.layer_data[i as int]);
                    lemma_after_len(before, start as int, i as int);
                }
                let function = resolve_blend_mode(self.layers[i].blend_mode.as_str());
                let opacity = self.layers[i].opacity;
                match function {
                    Some(BlendFunction::Normal) => {
                        let blended = match base {
                            Some(b) => blend_normal(
                                Some(&self.layer_data[b].running_total),
                                &self.layer_data[i].texture,
                                &self.layer_data[i].mask,
                                opacity,
                            ),
                            None => blend_normal(
                                None,
                                &self.layer_data[i].texture,
                                &self.layer_data[i].mask,
                                opacity,
                            ),
                        };
                        self.layer_data[i].running_total = blended;
                        base = Some(i);
                    },
                    None => {},
                }
            }
            proof {
                let target = before.with_caches_through(start as int, i + 1);
                if before.layers[i as int].visible {
                    assert(before.total_after(start as int, i + 1) == before.cache_after(
                        start as int,
                        i as int,
                    ));
                } else {
                    assert(before.total_after(start as int, i + 1) == before.total_after(
                        start as int,
                        i as int,
                    ));
                    assert(before.cache_after(start as int, i as int)
                        == before.layer_data[i as int].running_total);
                }
                assert forall|k: int| 0 <= k < n implies self@.layer_data[k]
                    == target.layer_data[k] by {
                    if k != i {
                        assert(self@.layer_data[k] == current.layer_data[k]);
                    }
                }
                assert(self@.layer_data =~= target.layer_data);
            }
            i += 1;
        }
        let output = match base {
            Some(b) => copy_bytes(&self.layer_data[b].running_total),
            None => {
                proof {
                    assert(before.color_len() == 4 * count);
                }
                fill_luma(4 * count, 0)
            },
        };
        proof {
            assert(output@ =~= before.total_after(start as int, n as int));
        }
        self.output_texture = Some(output);
        proof {
            assert(self@.layer_data =~= before.recomputed_from(start as int).layer_data);
        }
    }

    /// Builds the output image for a workspace and composites the whole
    /// stack into it.
    pub fn build_output_texture(&mut self)
        requires
            old(self).wf(),
            old(self)@.composable_from(0),
        ensures
            final(self)@ == old(self)@.recomputed_from(0),
            final(self).wf(),
            final(self)@.composited(),
            final(self)@.same_stack(old(self)@),
    {
        proof {
            lemma_recomputed_wf(self@, 0);
            lemma_recomputed_composited(self@, 0);
        }
        self.recompute(0);
    }

    /// Recomputes from `start`, which may be the height of the stack: then
    /// no cache is rebuilt and only the output is refreshed.
    pub(crate) fn refresh_from(&mut self, start: usize)
        requires
            old(self).wf(),
            start <= old(self).layers.len(),
            old(self)@.composable_from(old(self)@.effective_start(start as int)),
        ensures
            final(self)@ == old(self)@.recomputed(start as int),
            final(self).wf(),
            final(self)@.same_stack(old(self)@),
            final(self)@.output_texture == Some(
                final(self)@.running_total_below(final(self)@.layers.len() as int),
            ),
            old(self).output_texture is None || old(self)@.clean_below(start as int)
                ==> final(self)@.composited(),
    {
        proof {
            lemma_recomputed_output(self@, start as int);
            lemma_recomputed_wf(self@, start as int);
            lemma_recomputed_composited(self@, 0);
            if self@.clean_below(start as int) {
                lemma_recomputed_composited(self@, start as int);
            }
        }
        if self.output_texture.is_none() {
            self.build_output_texture();
        } else {
            self.recompute(start);
        }
    }

    /// Recomputes the composite from layer `start` upward: every visible
    /// layer from `start` on is laid over the running total below it and
    /// the result kept as its cache; hidden layers are passed over; the
    /// output becomes the running total of the whole stack, which for an
    /// empty stack is the transparent image.
    ///
    /// A workspace whose output has not been built yet is composited from
    /// the bottom, whatever `start` is.
    pub fn recalculate_output_texture(&mut self, start: usize)
        requires
            old(self).wf(),
            old(self).layers.len() == 0 || start < old(self).layers.len(),
            old(self)@.composable_from(old(self)@.effective_start(start as int)),
        ensures
            final(self)@ == old(self)@.recomputed(start as int),
            final(self).wf(),
            final(self)@.same_stack(old(self)@),
            final(self)@.output_texture == Some(
                final(self)@.running_total_below(final(self)@.layers.len() as int),
            ),
            final(self)@.layers.len() > 0 && final(self)@.layers.last().visible
                ==> final(self)@.output_texture == Some(
                final(self)@.layer_data.last().running_total,
            ),
            old(self).output_texture is None || old(self)@.clean_below(start as int)
                ==> final(self)@.composited(),
    {
        proof {
            lemma_recomputed_output(self@, start as int);
        }
        if start <= self.layers.len() {
            self.refresh_from(start);
        } else {
            proof {
                assert(self@.recomputed_from(0).layer_data =~= self@.recomputed_from(
                    start as int,
                ).layer_data);
            }
            self.refresh_from(0);
        }
    }
}

} // verus!
