//! The file format of a workspace.
//!
//! A file is a sequence of blocks, each a length of four bytes, least
//! significant first, followed by that many bytes. The first block is the
//! header: canvas size, view state, and the metadata of the layers, bottom
//! first. Two blocks follow for every layer, in stack order: the PNG file of
//! its color image and the PNG file of its mask. Caches and output are not
//! stored: loading composites the stack anew.

use crate::blend::{resolve_blend_mode, resolved_blend_mode, transparent, OPACITY_ONE};
use crate::codec::{
    decode_png_luma, decode_png_rgba, deserialize_header, encode_png_luma, encode_png_rgba,
    header_decoding, header_encoding, png_luma_decoding, png_luma_encoding, png_rgba_decoding,
    png_rgba_encoding, raw_layers_view, serialize_header, RawHeader, RawLayer, RawLayerView,
};
use crate::raster::{fill_luma, GrayImage, ImageView, RgbaImage};
use crate::workspace::compositor::{
    lemma_composite_agrees, lemma_recomputed_composited, lemma_recomputed_wf,
    lemma_total_after_is_composite,
};
use crate::workspace::layer_info::{LayerInfo, LayerInfoView};
use crate::workspace::{LayerData, LayerDataView, Workspace, WorkspaceView};
use vstd::prelude::*;
use vstd::slice::slice_subrange;

verus! {

/// Why a file could not be loaded.
#[derive(Clone, Copy, Debug, PartialEq, Eq)]
pub enum LoadError {
    /// A length is missing, or it runs past the end of the file.
    Truncated,
    /// The header cannot be parsed, or it describes a workspace that cannot
    /// be held or composited: a canvas too large for memory, an opacity
    /// above one, or a visible layer whose blend mode is not known.
    Metadata,
    /// The image of a layer cannot be decoded.
    ImageDecode,
    /// An image is not of the canvas's size, or the images are not one pair
    /// for every layer.
    LayerMismatch,
}

/// Why a workspace could not be saved.
#[derive(Clone, Copy, Debug, PartialEq, Eq)]
pub enum SaveError {
    /// The header could not be serialized.
    Metadata,
    /// The image of a layer could not be encoded.
    ImageEncode,
    /// A block is longer than a length of four bytes can say.
    TooLarge,
}

/// The text that names the step at which loading failed.
pub open spec fn load_error_text(error: LoadError) -> Seq<char> {
    match error {
        LoadError::Truncated => "file: a block runs past the end of the data"@,
        LoadError::Metadata => "metadata parse: the header is malformed"@,
        LoadError::ImageDecode => "decode: a layer image is malformed"@,
        LoadError::LayerMismatch => "decode: a layer image does not fit the canvas"@,
    }
}

/// The text that names the step at which saving failed.
pub open spec fn save_error_text(error: SaveError) -> Seq<char> {
    match error {
        SaveError::Metadata => "metadata: the header could not be serialized"@,
        SaveError::ImageEncode => "encode: a layer image could not be encoded"@,
        SaveError::TooLarge => "file: a block is too long for its length field"@,
    }
}

impl LoadError {
    /// A message that names the failed step.
    pub fn message(&self) -> (r: String)
        ensures
            r@ == load_error_text(*self),
    {
        match self {
            LoadError::Truncated => "file: a block runs past the end of the data".to_owned(),
            LoadError::Metadata => "metadata parse: the header is malformed".to_owned(),
            LoadError::ImageDecode => "decode: a layer image is malformed".to_owned(),
            LoadError::LayerMismatch => "decode: a layer image does not fit the canvas".to_owned(),
        }
    }
}

impl SaveError {
    /// A message that names the failed step.
    pub fn message(&self) -> (r: String)
        ensures
            r@ == save_error_text(*self),
    {
        match self {
            SaveError::Metadata => "metadata: the header could not be serialized".to_owned(),
            SaveError::ImageEncode => "encode: a layer image could not be encoded".to_owned(),
            SaveError::TooLarge => "file: a block is too long for its length field".to_owned(),
        }
    }
}

/// The four bytes of a length, least significant first.
pub open spec fn length_prefix(len: int) -> Seq<u8> {
    seq![
        (len % 256) as u8,
        (len / 256 % 256) as u8,
        (len / 65536 % 256) as u8,
        (len / 16777216 % 256) as u8,
    ]
}

/// The length that the four bytes at `pos` say.
pub open spec fn length_at(data: Seq<u8>, pos: int) -> int {
    data[pos] as int + 256 * data[pos + 1] as int + 65536 * data[pos + 2] as int + 16777216
        * data[pos + 3] as int
}

/// A block: its length, then its bytes.
pub open spec fn framed(block: Seq<u8>) -> Seq<u8> {
    length_prefix(block.len() as int) + block
}

/// Where the bytes of the block at `pos` start and end, or `None` where the
/// length is cut short or runs past the end of the data.
pub open spec fn block_at(data: Seq<u8>, pos: int) -> Option<(int, int)> {
    if pos + 4 > data.len() {
        None
    } else if pos + 4 + length_at(data, pos) > data.len() {
        None
    } else {
        Some((pos + 4, pos + 4 + length_at(data, pos)))
    }
}

/// Finds the block that starts at `pos`.
pub fn read_block(data: &[u8], pos: usize) -> (r: Result<(usize, usize), LoadError>)
    ensures
        (match r {
            Ok((start, end)) => block_at(data@, pos as int) == Some((start as int, end as int))
                && pos + 4 == start <= end <= data@.len(),
            Err(error) => error == LoadError::Truncated && block_at(data@, pos as int) is None,
        }),
{
    let total = data.len();
    if pos > total || total - pos < 4 {
        return Err(LoadError::Truncated);
    }
    let len: u64 = (data[pos] as u64) + 256 * (data[pos + 1] as u64) + 65536 * (data[pos
        + 2] as u64) + 16777216 * (data[pos + 3] as u64);
    let rest: usize = total - pos - 4;
    if len > rest as u64 {
        return Err(LoadError::Truncated);
    }
    Ok((pos + 4, pos + 4 + len as usize))
}

/// Appends a block to a file.
pub fn write_block(out: &mut Vec<u8>, block: &[u8])
    requires
        block@.len() <= u32::MAX,
    ensures
        final(out)@ == old(out)@ + framed(block@),
{
    let ghost before = out@;
    let len: usize = block.len();
    out.push((len % 256) as u8);
    out.push((len / 256 % 256) as u8);
    out.push((len / 65536 % 256) as u8);
    out.push((len / 16777216 % 256) as u8);
    let mut i: usize = 0;
    while i < len
        invariant
            len == block@.len(),
            i <= len,
            out@ == before + length_prefix(len as int) + block@.subrange(0, i as int),
        decreases len - i,
    {
        out.push(block[i]);
        i += 1;
    }
    assert(block@.subrange(0, len as int) =~= block@);
}

/// The layers of a workspace as a header stores them.
pub open spec fn stored_layers(layers: Seq<LayerInfoView>) -> Seq<RawLayerView> {
    Seq::new(
        layers.len(),
        |i: int| (layers[i].name, layers[i].visible, layers[i].opacity, layers[i].blend_mode),
    )
}

/// The header block of a workspace, unframed.
pub open spec fn stored_header(ws: WorkspaceView) -> Option<Seq<u8>> {
    header_encoding(
        ws.size.0,
        ws.size.1,
        ws.zoom,
        ws.pixel_at_center.0,
        ws.pixel_at_center.1,
        stored_layers(ws.layers),
    )
}

/// A file so far, continued by what is still to come.
pub open spec fn continued<E>(so_far: Seq<u8>, rest: Result<Seq<u8>, E>) -> Result<Seq<u8>, E> {
    match rest {
        Ok(bytes) => Ok(so_far + bytes),
        Err(error) => Err(error),
    }
}

/// The two blocks of layer `i`: its color image, then its mask.
pub open spec fn saved_layer(ws: WorkspaceView, i: int) -> Result<Seq<u8>, SaveError> {
    match png_rgba_encoding(ws.size.0, ws.size.1, ws.layer_data[i].texture) {
        None => Err(SaveError::ImageEncode),
        Some(color) => if color.len() > u32::MAX {
            Err(SaveError::TooLarge)
        } else {
            match png_luma_encoding(ws.size.0, ws.size.1, ws.layer_data[i].mask) {
                None => Err(SaveError::ImageEncode),
                Some(mask) => if mask.len() > u32::MAX {
                    Err(SaveError::TooLarge)
                } else {
                    Ok(framed(color) + framed(mask))
                },
            }
        },
    }
}

/// The blocks of the layers from `from` upward.
pub open spec fn saved_layers(ws: WorkspaceView, from: int) -> Result<Seq<u8>, SaveError>
    decreases ws.layers.len() - from,
{
    if from < 0 || from >= ws.layers.len() {
        Ok(Seq::empty())
    } else {
        match saved_layer(ws, from) {
            Err(error) => Err(error),
            Ok(blocks) => continued(blocks, saved_layers(ws, from + 1)),
        }
    }
}

/// The file of a workspace, or the first error met on the way: the header
/// comes first, then the layers bottom to top, color before mask.
pub open spec fn saved(ws: WorkspaceView) -> Result<Seq<u8>, SaveError> {
    match stored_header(ws) {
        None => Err(SaveError::Metadata),
        Some(header) => if header.len() > u32::MAX {
            Err(SaveError::TooLarge)
        } else {
            continued(framed(header), saved_layers(ws, 0))
        },
    }
}

/// The values of decoded pairs of color image and mask.
pub open spec fn images_view(images: Seq<(RgbaImage, GrayImage)>) -> Seq<(ImageView, ImageView)> {
    Seq::new(images.len(), |i: int| (images[i].0@, images[i].1@))
}

/// Images so far, continued by what is still to come.
pub open spec fn continued_images(
    so_far: Seq<(ImageView, ImageView)>,
    rest: Result<Seq<(ImageView, ImageView)>, LoadError>,
) -> Result<Seq<(ImageView, ImageView)>, LoadError> {
    match rest {
        Ok(images) => Ok(so_far + images),
        Err(error) => Err(error),
    }
}

/// What the decoder makes of a color block.
pub open spec fn decoded_color(block: Seq<u8>) -> Option<ImageView> {
    match png_rgba_decoding(block) {
        Some((width, height, data)) => Some(ImageView { width, height, data }),
        None => None,
    }
}

/// What the decoder makes of a mask block.
pub open spec fn decoded_mask(block: Seq<u8>) -> Option<ImageView> {
    match png_luma_decoding(block) {
        Some((width, height, data)) => Some(ImageView { width, height, data }),
        None => None,
    }
}

/// The images of the layer whose blocks start at `pos`, and where the next
/// layer starts: a color block, then a mask block.
pub open spec fn decoded_pair(data: Seq<u8>, pos: int) -> Result<
    ((ImageView, ImageView), int),
    LoadError,
> {
    match block_at(data, pos) {
        None => Err(LoadError::Truncated),
        Some((color_start, color_end)) => match decoded_color(
            data.subrange(color_start, color_end),
        ) {
            None => Err(LoadError::ImageDecode),
            Some(color) => match block_at(data, color_end) {
                None => Err(LoadError::Truncated),
                Some((mask_start, mask_end)) => match decoded_mask(
                    data.subrange(mask_start, mask_end),
                ) {
                    None => Err(LoadError::ImageDecode),
                    Some(mask) => Ok(((color, mask), mask_end)),
                },
            },
        },
    }
}

/// The images of `count` layers read from `pos` on, or the first error met
/// on the way.
pub open spec fn decoded_layers(data: Seq<u8>, pos: int, count: nat) -> Result<
    Seq<(ImageView, ImageView)>,
    LoadError,
>
    decreases count,
{
    if count == 0 {
        Ok(Seq::empty())
    } else {
        match decoded_pair(data, pos) {
            Err(error) => Err(error),
            Ok((pair, next)) => continued_images(
                seq![pair],
                decoded_layers(data, next, (count - 1) as nat),
            ),
        }
    }
}

/// The workspace that a checked header and the rest of a file make.
pub open spec fn loaded_body(
    data: Seq<u8>,
    pos: int,
    header: ((u32, u32), u32, (u32, u32), Seq<RawLayerView>),
) -> Result<WorkspaceView, LoadError> {
    match decoded_layers(data, pos, header.3.len()) {
        Err(error) => Err(error),
        Ok(images) => assembled(header.0, header.1, header.2, header.3, images),
    }
}

/// A header describes a workspace that can be held and composited: a color
/// image of the canvas fits in memory, every opacity is a fraction of one,
/// and every visible layer names a known blend mode.
pub open spec fn header_fits(size: (u32, u32), layers: Seq<RawLayerView>) -> bool {
    &&& 4 * (size.0 as nat * size.1 as nat) <= usize::MAX
    &&& forall|i: int| 0 <= i < layers.len() ==> (#[trigger] layers[i]).2 <= OPACITY_ONE
    &&& forall|i: int|
        0 <= i < layers.len() && (#[trigger] layers[i]).1 ==> resolved_blend_mode(layers[i].3)
            is Some
}

/// A pair of color image and mask is of the canvas's size.
pub open spec fn images_fit(size: (u32, u32), pair: (ImageView, ImageView)) -> bool {
    pair.0.fits(size, 4) && pair.1.fits(size, 1)
}

/// The stack that a header and the images of its layers describe, before it
/// is composited. A stored layer is never a scratch layer.
pub open spec fn stacked(
    size: (u32, u32),
    zoom: u32,
    pixel_at_center: (u32, u32),
    layers: Seq<RawLayerView>,
    images: Seq<(ImageView, ImageView)>,
) -> WorkspaceView {
    WorkspaceView {
        size,
        zoom,
        pixel_at_center,
        layers: Seq::new(
            layers.len(),
            |i: int|
                LayerInfoView {
                    name: layers[i].0,
                    visible: layers[i].1,
                    opacity: layers[i].2,
                    blend_mode: layers[i].3,
                    is_tool_layer: false,
                },
        ),
        layer_data: Seq::new(
            layers.len(),
            |i: int|
                LayerDataView {
                    texture: images[i].0.data,
                    mask: images[i].1.data,
                    running_total: transparent(4 * (size.0 as nat * size.1 as nat)),
                },
        ),
        output_texture: None,
        selected_layer: None,
    }
}

/// The workspace that a header and the images of its layers make, composited
/// from the bottom; or why they make none.
pub open spec fn assembled(
    size: (u32, u32),
    zoom: u32,
    pixel_at_center: (u32, u32),
    layers: Seq<RawLayerView>,
    images: Seq<(ImageView, ImageView)>,
) -> Result<WorkspaceView, LoadError> {
    if !header_fits(size, layers) {
        Err(LoadError::Metadata)
    } else if images.len() != layers.len() || exists|i: int|
        0 <= i < images.len() && !images_fit(size, #[trigger] images[i]) {
        Err(LoadError::LayerMismatch)
    } else {
        Ok(stacked(size, zoom, pixel_at_center, layers, images).recomputed_from(0))
    }
}

/// The workspace that a file holds, or the first error met on the way: the
/// header is read and checked first, then one pair of images for every
/// layer that it lists. Bytes after the last layer are not read.
pub open spec fn loaded(data: Seq<u8>) -> Result<WorkspaceView, LoadError> {
    match block_at(data, 0) {
        None => Err(LoadError::Truncated),
        Some((start, end)) => match header_decoding(data.subrange(start, end)) {
            None => Err(LoadError::Metadata),
            Some(header) => if !header_fits(header.0, header.3) {
                Err(LoadError::Metadata)
            } else {
                loaded_body(data, end, header)
            },
        },
    }
}

/// The images of a workspace's layers as a decoder hands them out.
pub open spec fn stored_images(ws: WorkspaceView) -> Seq<(ImageView, ImageView)> {
    Seq::new(
        ws.layers.len(),
        |i: int|
            (
                ImageView {
                    width: ws.size.0,
                    height: ws.size.1,
                    data: ws.layer_data[i].texture,
                },
                ImageView { width: ws.size.0, height: ws.size.1, data: ws.layer_data[i].mask },
            ),
    )
}

/// The codecs are lossless on what a workspace holds: decoding what they
/// made of its header, and of the color image and the mask of each of its
/// layers, gives the same values back.
pub open spec fn codecs_lossless_on(ws: WorkspaceView) -> bool {
    &&& stored_header(ws) matches Some(bytes) ==> header_decoding(bytes) == Some(
        (ws.size, ws.zoom, ws.pixel_at_center, stored_layers(ws.layers)),
    )
    &&& forall|i: int|
        #![trigger ws.layer_data[i]]
        0 <= i < ws.layers.len() ==> {
            &&& png_rgba_encoding(ws.size.0, ws.size.1, ws.layer_data[i].texture) matches Some(
                bytes,
            ) ==> png_rgba_decoding(bytes) == Some(
                (ws.size.0, ws.size.1, ws.layer_data[i].texture),
            )
            &&& png_luma_encoding(ws.size.0, ws.size.1, ws.layer_data[i].mask) matches Some(
                bytes,
            ) ==> png_luma_decoding(bytes) == Some((ws.size.0, ws.size.1, ws.layer_data[i].mask))
        }
}

/// A length of at most four bytes is read back from its prefix.
pub proof fn lemma_length_round_trips(len: int, rest: Seq<u8>)
    requires
        0 <= len <= u32::MAX,
    ensures
        length_at(length_prefix(len) + rest, 0) == len,
{
    let data = length_prefix(len) + rest;
    assert(data[3] == (len / 16777216 % 256) as u8);
}

/// Where the data from `pos` on is a framed block followed by `rest`, the
/// block is found at `pos`, and `rest` is what follows it.
pub proof fn lemma_block_at_framed(data: Seq<u8>, pos: int, block: Seq<u8>, rest: Seq<u8>)
    requires
        0 <= pos <= data.len(),
        block.len() <= u32::MAX,
        data.subrange(pos, data.len() as int) == framed(block) + rest,
    ensures
        block_at(data, pos) == Some((pos + 4, pos + 4 + block.len())),
        data.subrange(pos + 4, pos + 4 + block.len()) == block,
        data.subrange(pos + 4 + block.len(), data.len() as int) == rest,
{
    let tail = data.subrange(pos, data.len() as int);
    let len = block.len() as int;
    assert(tail.len() == 4 + len + rest.len());
    lemma_length_round_trips(len, block + rest);
    assert(tail[0] == data[pos] && tail[1] == data[pos + 1] && tail[2] == data[pos + 2]
        && tail[3] == data[pos + 3]);
    assert forall|k: int| 0 <= k < len implies data.subrange(pos + 4, pos + 4 + len)[k]
        == block[k] by {
        assert(tail[4 + k] == data[pos + 4 + k]);
    }
    assert forall|k: int| 0 <= k < rest.len() implies data.subrange(
        pos + 4 + len,
        data.len() as int,
    )[k] == rest[k] by {
        assert(tail[4 + len + k] == data[pos + 4 + len + k]);
    }
}

/// Where the data from `pos` on is what saving wrote for the layers from
/// `from` upward, and the codecs are lossless on them, decoding gives the
/// images of those layers back.
pub proof fn lemma_saved_layers_decode(ws: WorkspaceView, data: Seq<u8>, pos: int, from: int)
    requires
        codecs_lossless_on(ws),
        0 <= from <= ws.layers.len(),
        0 <= pos <= data.len(),
        saved_layers(ws, from) == Ok::<Seq<u8>, SaveError>(data.subrange(pos, data.len() as int)),
    ensures
        decoded_layers(data, pos, (ws.layers.len() - from) as nat) == Ok::<
            Seq<(ImageView, ImageView)>,
            LoadError,
        >(stored_images(ws).subrange(from, ws.layers.len() as int)),
    decreases ws.layers.len() - from,
{
    let n = ws.layers.len() as int;
    let images = stored_images(ws);
    if from >= n {
        assert(images.subrange(from, n) =~= Seq::<(ImageView, ImageView)>::empty());
    } else {
        let tail = data.subrange(pos, data.len() as int);
        let color = png_rgba_encoding(ws.size.0, ws.size.1, ws.layer_data[from].texture)->Some_0;
        let mask = png_luma_encoding(ws.size.0, ws.size.1, ws.layer_data[from].mask)->Some_0;
        let rest = saved_layers(ws, from + 1)->Ok_0;
        assert(saved_layer(ws, from) == Ok::<Seq<u8>, SaveError>(framed(color) + framed(mask)));
        assert(tail =~= framed(color) + (framed(mask) + rest));
        lemma_block_at_framed(data, pos, color, framed(mask) + rest);
        let color_end = pos + 4 + color.len();
        lemma_block_at_framed(data, color_end, mask, rest);
        let mask_end = color_end + 4 + mask.len();
        assert(decoded_pair(data, pos) == Ok::<((ImageView, ImageView), int), LoadError>(
            (images[from], mask_end),
        ));
        lemma_saved_layers_decode(ws, data, mask_end, from + 1);
        assert(seq![images[from]] + images.subrange(from + 1, n) =~= images.subrange(from, n));
    }
}

/// A workspace comes back from its file: where saving succeeds and the
/// codecs are lossless on what the workspace holds, loading the file gives
/// a workspace of the same canvas size and view, with as many layers, each
/// with the same name, visibility, opacity, blend mode, color and mask, no
/// layer marked as scratch, and an output that is, byte for byte, the
/// output of compositing the saved workspace from the bottom.
pub proof fn save_then_load_round_trips(ws: WorkspaceView, file: Seq<u8>)
    requires
        ws.wf(),
        ws.composable_from(0),
        codecs_lossless_on(ws),
        saved(ws) == Ok::<Seq<u8>, SaveError>(file),
    ensures
        loaded(file) is Ok,
        ({
            let back = loaded(file)->Ok_0;
            &&& back.wf()
            &&& back.composited()
            &&& back.size == ws.size
            &&& back.zoom == ws.zoom
            &&& back.pixel_at_center == ws.pixel_at_center
            &&& back.layers.len() == ws.layers.len()
            &&& back.layer_data.len() == ws.layers.len()
            &&& forall|i: int|
                0 <= i < ws.layers.len() ==> (#[trigger] back.layers[i]) == (LayerInfoView {
                    is_tool_layer: false,
                    ..ws.layers[i]
                })
            &&& forall|i: int|
                0 <= i < ws.layers.len() ==> (#[trigger] back.layer_data[i]).texture
                    == ws.layer_data[i].texture && back.layer_data[i].mask
                    == ws.layer_data[i].mask
            &&& back.output_texture == ws.recomputed(0).output_texture
        }),
{
    let n = ws.layers.len() as int;
    let header = stored_header(ws)->Some_0;
    let body = saved_layers(ws, 0)->Ok_0;
    let layers = stored_layers(ws.layers);
    let images = stored_images(ws);
    assert(file.subrange(0, file.len() as int) =~= file);
    lemma_block_at_framed(file, 0, header, body);
    let end = 4 + header.len();
    assert forall|i: int| 0 <= i < layers.len() implies (#[trigger] layers[i]).2
        <= OPACITY_ONE by {
        assert(ws.layers[i].opacity <= OPACITY_ONE);
    }
    assert forall|i: int|
        0 <= i < layers.len() && (#[trigger] layers[i]).1 implies resolved_blend_mode(
        layers[i].3,
    ) is Some by {
        assert(ws.layers[i].visible);
    }
    lemma_saved_layers_decode(ws, file, end as int, 0);
    assert(images.subrange(0, n) =~= images);
    assert forall|i: int| 0 <= i < images.len() implies images_fit(
        ws.size,
        #[trigger] images[i],
    ) by {
        assert(ws.layer_data[i].wf(ws.pixels()));
    }
    let stack = stacked(ws.size, ws.zoom, ws.pixel_at_center, layers, images);
    assert forall|i: int| 0 <= i < stack.layer_data.len() implies (
    #[trigger] stack.layer_data[i]).wf(stack.pixels()) by {
        assert(ws.layer_data[i].wf(ws.pixels()));
    }
    assert forall|i: int| 0 <= i < stack.layers.len() implies (#[trigger] stack.layers[i]).opacity
        <= OPACITY_ONE by {
        assert(ws.layers[i].opacity <= OPACITY_ONE);
    }
    lemma_recomputed_wf(stack, 0);
    lemma_recomputed_composited(stack, 0);
    lemma_total_after_is_composite(stack, 0, n);
    lemma_total_after_is_composite(ws, 0, n);
    lemma_composite_agrees(stack, ws, n);
}

/// Whether a header describes a workspace that can be held and composited.
pub fn check_header(header: &RawHeader) -> (r: bool)
    ensures
        r == header_fits(header.0, raw_layers_view(header.3@)),
{
    let size = header.0;
    assert(size.0 as nat * size.1 as nat <= 0xFFFF_FFFF * 0xFFFF_FFFF) by (nonlinear_arith)
        requires
            size.0 <= 0xFFFF_FFFF,
            size.1 <= 0xFFFF_FFFF,
    ;
    let pixels: u64 = (size.0 as u64) * (size.1 as u64);
    if pixels > (usize::MAX / 4) as u64 {
        return false;
    }
    let ghost layers = raw_layers_view(header.3@);
    let n = header.3.len();
    let mut i: usize = 0;
    while i < n
        invariant
            n == header.3@.len(),
            layers == raw_layers_view(header.3@),
            i <= n,
            forall|k: int| 0 <= k < i ==> (#[trigger] layers[k]).2 <= OPACITY_ONE,
            forall|k: int|
                0 <= k < i && (#[trigger] layers[k]).1 ==> resolved_blend_mode(layers[k].3)
                    is Some,
        decreases n - i,
    {
        let layer = &header.3[i];
        assert(layers[i as int] == (layer.0@, layer.1, layer.2, layer.3@));
        if layer.2 > OPACITY_ONE {
            return false;
        }
        if layer.1 && resolve_blend_mode(layer.3.as_str()).is_none() {
            return false;
        }
        i += 1;
    }
    true
}

impl Workspace {
    /// The header of the workspace as it is stored.
    pub fn header(&self) -> (r: RawHeader)
        ensures
            r.0 == self@.size,
            r.1 == self@.zoom,
            r.2 == self@.pixel_at_center,
            raw_layers_view(r.3@) == stored_layers(self@.layers),
    {
        let n = self.layers.len();
        let mut layers: Vec<RawLayer> = Vec::with_capacity(n);
        let mut i: usize = 0;
        while i < n
            invariant
                n == self.layers@.len(),
                i <= n,
                layers@.len() == i,
                forall|k: int|
                    0 <= k < i ==> raw_layers_view(layers@)[k] == stored_layers(
                        self@.layers,
                    )[k],
            decreases n - i,
        {
            let layer = &self.layers[i];
            let ghost held = layers@;
            let stored: RawLayer = (
                layer.name.clone(),
                layer.visible,
                layer.opacity,
                layer.blend_mode.clone(),
            );
            layers.push(stored);
            proof {
                assert forall|k: int| 0 <= k <= i implies raw_layers_view(layers@)[k]
                    == stored_layers(self@.layers)[k] by {
                    if k < i {
                        assert(raw_layers_view(held)[k] == stored_layers(self@.layers)[k]);
                    }
                }
            }
            i += 1;
        }
        (self.size, self.zoom, self.pixel_at_center, layers)
    }

    /// Appends the two blocks of layer `i` to a file.
    fn save_layer(&self, i: usize, out: &mut Vec<u8>) -> (r: Result<(), SaveError>)
        requires
            self.wf(),
            i < self.layers.len(),
        ensures
            (match r {
                Ok(()) => saved_layer(self@, i as int) == Ok::<Seq<u8>, SaveError>(
                    final(out)@.subrange(old(out)@.len() as int, final(out)@.len() as int),
                ) && final(out)@.subrange(0, old(out)@.len() as int) == old(out)@ && old(
                    out,
                )@.len() <= final(out)@.len(),
                Err(error) => saved_layer(self@, i as int) == Err::<Seq<u8>, SaveError>(error),
            }),
    {
        let ghost before = out@;
        let layer = &self.layer_data[i];
        proof {
            assert(self@.layer_data[i as int].wf(self@.pixels()));
        }
        let color = match encode_png_rgba(layer.texture.as_slice(), self.size.0, self.size.1) {
            Ok(bytes) => bytes,
            Err(_) => {
                return Err(SaveError::ImageEncode);
            },
        };
        if color.len() > u32::MAX as usize {
            return Err(SaveError::TooLarge);
        }
        let mask = match encode_png_luma(layer.mask.as_slice(), self.size.0, self.size.1) {
            Ok(bytes) => bytes,
            Err(_) => {
                return Err(SaveError::ImageEncode);
            },
        };
        if mask.len() > u32::MAX as usize {
            return Err(SaveError::TooLarge);
        }
        write_block(out, color.as_slice());
        write_block(out, mask.as_slice());
        proof {
            assert(out@.subrange(before.len() as int, out@.len() as int) =~= framed(color@)
                + framed(mask@));
        }
        Ok(())
    }

    /// Writes the workspace into a file: the header, then for every layer,
    /// bottom to top, its color image and its mask as PNG files.
    pub fn save(&self) -> (r: Result<Vec<u8>, SaveError>)
        requires
            self.wf(),
        ensures
            (match r {
                Ok(bytes) => saved(self@) == Ok::<Seq<u8>, SaveError>(bytes@),
                Err(error) => saved(self@) == Err::<Seq<u8>, SaveError>(error),
            }),
    {
        let header = self.header();
        let header_bytes = match serialize_header(&header) {
            Ok(bytes) => bytes,
            Err(_) => {
                return Err(SaveError::Metadata);
            },
        };
        if header_bytes.len() > u32::MAX as usize {
            return Err(SaveError::TooLarge);
        }
        let mut out: Vec<u8> = Vec::new();
        write_block(&mut out, header_bytes.as_slice());
        let n = self.layer_data.len();
        let mut i: usize = 0;
        while i < n
            invariant
                self.wf(),
                n == self@.layers.len(),
                i <= n,
                saved(self@) == continued(out@, saved_layers(self@, i as int)),
            decreases n - i,
        {
            let ghost before = out@;
            match self.save_layer(i, &mut out) {
                Ok(()) => {},
                Err(error) => {
                    return Err(error);
                },
            }
            proof {
                let blocks = out@.subrange(before.len() as int, out@.len() as int);
                let rest = saved_layers(self@, i + 1);
                if let Ok(bytes) = rest {
                    assert(before + (blocks + bytes) =~= out@ + bytes);
                }
            }
            i += 1;
        }
        Ok(out)
    }

    /// Makes a workspace of a header and the decoded images of its layers,
    /// one pair of color image and mask for every layer, and composites it
    /// from the bottom.
    pub fn from_parts(header: RawHeader, images: Vec<(RgbaImage, GrayImage)>) -> (r: Result<
        Workspace,
        LoadError,
    >)
        ensures
            (match r {
                Ok(ws) => assembled(
                    header.0,
                    header.1,
                    header.2,
                    raw_layers_view(header.3@),
                    images_view(images@),
                ) == Ok::<WorkspaceView, LoadError>(ws@) && ws.wf() && ws@.composited(),
                Err(error) => assembled(
                    header.0,
                    header.1,
                    header.2,
                    raw_layers_view(header.3@),
                    images_view(images@),
                ) == Err::<WorkspaceView, LoadError>(error),
            }),
    {
        let ghost layers_view = raw_layers_view(header.3@);
        let ghost pairs = images_view(images@);
        if !check_header(&header) {
            return Err(LoadError::Metadata);
        }
        let size = header.0;
        let n = header.3.len();
        if images.len() != n {
            return Err(LoadError::LayerMismatch);
        }
        let count: usize = (size.0 as usize) * (size.1 as usize);
        let mut i: usize = 0;
        while i < n
            invariant
                n == images@.len(),
                n == layers_view.len(),
                layers_view == raw_layers_view(header.3@),
                size == header.0,
                header_fits(header.0, layers_view),
                pairs == images_view(images@),
                count == size.0 as nat * size.1 as nat,
                4 * count <= usize::MAX,
                i <= n,
                forall|k: int| 0 <= k < i ==> images_fit(size, #[trigger] pairs[k]),
            decreases n - i,
        {
            let pair = &images[i];
            assert(pairs[i as int] == (pair.0@, pair.1@));
            if pair.0.width != size.0 || pair.0.height != size.1 || pair.0.data.len() != 4 * count
                || pair.1.width != size.0 || pair.1.height != size.1 || pair.1.data.len()
                != count {
                return Err(LoadError::LayerMismatch);
            }
            i += 1;
        }
        let ghost stack = stacked(header.0, header.1, header.2, layers_view, pairs);
        let mut images = images;
        let mut reversed: Vec<LayerData> = Vec::with_capacity(n);
        let mut taken: usize = 0;
        while taken < n
            invariant
                taken <= n,
                n == pairs.len(),
                n == layers_view.len(),
                stack == stacked(header.0, header.1, header.2, layers_view, pairs),
                size == header.0,
                count == size.0 as nat * size.1 as nat,
                4 * count <= usize::MAX,
                images@.len() == n - taken,
                images_view(images@) == pairs.subrange(0, n - taken),
                reversed@.len() == taken,
                forall|k: int|
                    0 <= k < taken ==> (#[trigger] reversed@[k])@ == stack.layer_data[n - 1 - k],
            decreases n - taken,
        {
            let ghost held = images@;
            let pair = images.pop().unwrap();
            proof {
                assert(images_view(held)[n - taken - 1] == (pair.0@, pair.1@));
            }
            let running_total = fill_luma(4 * count, 0);
            let layer = LayerData { texture: pair.0.data, mask: pair.1.data, running_total };
            let ghost stacked_so_far = reversed@;
            proof {
                assert(layer@.running_total =~= transparent(4 * (size.0 as nat * size.1 as nat)));
            }
            reversed.push(layer);
            proof {
                assert forall|k: int| 0 <= k <= taken implies (#[trigger] reversed@[k])@
                    == stack.layer_data[n - 1 - k] by {
                    if k < taken {
                        assert(reversed@[k] == stacked_so_far[k]);
                    }
                }
            }
            taken += 1;
        }
        let mut layer_data: Vec<LayerData> = Vec::with_capacity(n);
        let mut layers: Vec<LayerInfo> = Vec::with_capacity(n);
        let mut placed: usize = 0;
        while placed < n
            invariant
                placed <= n,
                n == header.3@.len(),
                layers_view == raw_layers_view(header.3@),
                stack == stacked(header.0, header.1, header.2, layers_view, pairs),
                reversed@.len() == n - placed,
                forall|k: int|
                    0 <= k < n - placed ==> (#[trigger] reversed@[k])@ == stack.layer_data[n
                        - 1 - k],
                layer_data@.len() == placed,
                layers@.len() == placed,
                forall|k: int|
                    0 <= k < placed ==> (#[trigger] layer_data@[k])@ == stack.layer_data[k],
                forall|k: int| 0 <= k < placed ==> (#[trigger] layers@[k])@ == stack.layers[k],
            decreases n - placed,
        {
            let data = reversed.pop().unwrap();
            let raw = &header.3[placed];
            let info = LayerInfo {
                name: raw.0.clone(),
                visible: raw.1,
                opacity: raw.2,
                blend_mode: raw.3.clone(),
                is_tool_layer: false,
            };
            proof {
                assert(layers_view[placed as int] == (raw.0@, raw.1, raw.2, raw.3@));
            }
            layer_data.push(data);
            layers.push(info);
            placed += 1;
        }
        let mut workspace = Workspace {
            size,
            zoom: header.1,
            pixel_at_center: header.2,
            layers,
            layer_data,
            output_texture: None,
            selected_layer: None,
        };
        proof {
            assert(workspace@.layers =~= stack.layers);
            assert(workspace@.layer_data =~= stack.layer_data);
            assert forall|k: int| 0 <= k < stack.layer_data.len() implies (
            #[trigger] stack.layer_data[k]).wf(stack.pixels()) by {
                assert(images_fit(size, pairs[k]));
            }
            assert forall|k: int| 0 <= k < stack.layers.len() implies (
            #[trigger] stack.layers[k]).opacity <= OPACITY_ONE by {
                assert(layers_view[k].2 <= OPACITY_ONE);
            }
            assert forall|k: int|
                0 <= k < stack.layers.len() && (
                #[trigger] stack.layers[k]).visible implies resolved_blend_mode(
                stack.layers[k].blend_mode,
            ) is Some by {
                assert(layers_view[k].1);
            }
        }
        workspace.build_output_texture();
        Ok(workspace)
    }

    /// Reads a workspace from a file and composites it from the bottom.
    /// Nothing is built unless the whole file can be read.
    pub fn load(data: &[u8]) -> (r: Result<Workspace, LoadError>)
        ensures
            (match r {
                Ok(ws) => loaded(data@) == Ok::<WorkspaceView, LoadError>(ws@) && ws.wf()
                    && ws@.composited(),
                Err(error) => loaded(data@) == Err::<WorkspaceView, LoadError>(error),
            }),
    {
        let (start, end) = match read_block(data, 0) {
            Ok(range) => range,
            Err(error) => {
                return Err(error);
            },
        };
        let header = match deserialize_header(slice_subrange(data, start, end)) {
            Ok(header) => header,
            Err(_) => {
                return Err(LoadError::Metadata);
            },
        };
        if !check_header(&header) {
            return Err(LoadError::Metadata);
        }
        let ghost header_view = (header.0, header.1, header.2, raw_layers_view(header.3@));
        let n = header.3.len();
        let mut images: Vec<(RgbaImage, GrayImage)> = Vec::new();
        let mut pos: usize = end;
        let mut i: usize = 0;
        while i < n
            invariant
                n == header_view.3.len(),
                loaded(data@) == loaded_body(data@, end as int, header_view),
                i <= n,
                images@.len() == i,
                decoded_layers(data@, end as int, n as nat) == continued_images(
                    images_view(images@),
                    decoded_layers(data@, pos as int, (n - i) as nat),
                ),
            decreases n - i,
        {
            let ghost before = images_view(images@);
            let (pair, next) = match read_pair(data, pos) {
                Ok(found) => found,
                Err(error) => {
                    return Err(error);
                },
            };
            let ghost pair_view = (pair.0@, pair.1@);
            images.push(pair);
            proof {
                let rest = decoded_layers(data@, next as int, (n - i - 1) as nat);
                assert(decoded_layers(data@, pos as int, (n - i) as nat) == continued_images(
                    seq![pair_view],
                    rest,
                ));
                if let Ok(more) = rest {
                    assert(before + (seq![pair_view] + more) =~= images_view(images@) + more);
                }
            }
            pos = next;
            i += 1;
        }
        proof {
            assert(images_view(images@) + Seq::<(ImageView, ImageView)>::empty() =~= images_view(
                images@,
            ));
        }
        Workspace::from_parts(header, images)
    }
}

/// Reads and decodes the two images of the layer whose blocks start at
/// `pos`, and says where the next layer starts.
pub fn read_pair(data: &[u8], pos: usize) -> (r: Result<((RgbaImage, GrayImage), usize), LoadError>)
    ensures
        (match r {
            Ok((pair, next)) => decoded_pair(data@, pos as int) == Ok::<
                ((ImageView, ImageView), int),
                LoadError,
            >(((pair.0@, pair.1@), next as int)),
            Err(error) => decoded_pair(data@, pos as int) == Err::<
                ((ImageView, ImageView), int),
                LoadError,
            >(error),
        }),
{
    let (color_start, color_end) = match read_block(data, pos) {
        Ok(range) => range,
        Err(error) => {
            return Err(error);
        },
    };
    let color = match decode_png_rgba(slice_subrange(data, color_start, color_end)) {
        Ok(image) => image,
        Err(_) => {
            return Err(LoadError::ImageDecode);
        },
    };
    let (mask_start, mask_end) = match read_block(data, color_end) {
        Ok(range) => range,
        Err(error) => {
            return Err(error);
        },
    };
    let mask = match decode_png_luma(slice_subrange(data, mask_start, mask_end)) {
        Ok(image) => image,
        Err(_) => {
            return Err(LoadError::ImageDecode);
        },
    };
    Ok(((color, mask), mask_end))
}

} // verus!
