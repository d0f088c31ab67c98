//! Host-side raster images: plain pixel buffers with their dimensions.

use vstd::prelude::*;

verus! {

/// An image of four 8-bit channels per pixel (red, green, blue, alpha), rows
/// from top to bottom.
#[derive(Debug, PartialEq, Eq)]
pub struct RgbaImage {
    pub width: u32,
    pub height: u32,
    pub data: Vec<u8>,
}

/// An image of one 8-bit channel per pixel, rows from top to bottom.
#[derive(Debug, PartialEq, Eq)]
pub struct GrayImage {
    pub width: u32,
    pub height: u32,
    pub data: Vec<u8>,
}

/// The mathematical value of an image.
pub struct ImageView {
    pub width: u32,
    pub height: u32,
    pub data: Seq<u8>,
}

impl View for RgbaImage {
    type V = ImageView;

    open spec fn view(&self) -> ImageView {
        ImageView { width: self.width, height: self.height, data: self.data@ }
    }
}

impl View for GrayImage {
    type V = ImageView;

    open spec fn view(&self) -> ImageView {
        ImageView { width: self.width, height: self.height, data: self.data@ }
    }
}

impl Clone for RgbaImage {
    fn clone(&self) -> (r: Self)
        ensures
            r@ == self@,
    {
        RgbaImage { width: self.width, height: self.height, data: copy_bytes(&self.data) }
    }
}

impl Clone for GrayImage {
    fn clone(&self) -> (r: Self)
        ensures
            r@ == self@,
    {
        GrayImage { width: self.width, height: self.height, data: copy_bytes(&self.data) }
    }
}

impl ImageView {
    /// The image has the given size and holds `channels` bytes for each of
    /// its pixels.
    pub open spec fn fits(self, size: (u32, u32), channels: nat) -> bool {
        &&& self.width == size.0
        &&& self.height == size.1
        &&& self.data.len() == channels * (size.0 as nat * size.1 as nat)
    }
}

/// The image of `pixels` pixels that all have the color `rgba`.
pub open spec fn solid_color(pixels: nat, rgba: Seq<u8>) -> Seq<u8> {
    Seq::new(4 * pixels, |j: int| rgba[j % 4])
}

/// The single-channel image of `pixels` pixels that all have the value `luma`.
pub open spec fn solid_luma(pixels: nat, luma: u8) -> Seq<u8> {
    Seq::new(pixels, |j: int| luma)
}

/// Builds a color buffer of `pixels` pixels, each of the color `rgba`.
pub fn fill_rgba(pixels: usize, rgba: [u8; 4]) -> (out: Vec<u8>)
    requires
        4 * pixels <= usize::MAX,
    ensures
        out@ == solid_color(pixels as nat, rgba@),
{
    let n: usize = 4 * pixels;
    let mut out: Vec<u8> = Vec::with_capacity(n);
    let mut j: usize = 0;
    while j < n
        invariant
            n == 4 * pixels,
            j <= n,
            out.len() == j,
            forall|k: int| 0 <= k < j ==> out[k] == rgba@[k % 4],
        decreases n - j,
    {
        out.push(rgba[j % 4]);
        j += 1;
    }
    out
}

/// Builds a single-channel buffer of `pixels` pixels, each of the value `luma`.
pub fn fill_luma(pixels: usize, luma: u8) -> (out: Vec<u8>)
    ensures
        out@ == solid_luma(pixels as nat, luma),
{
    let mut out: Vec<u8> = Vec::with_capacity(pixels);
    let mut j: usize = 0;
    while j < pixels
        invariant
            j <= pixels,
            out.len() == j,
            forall|k: int| 0 <= k < j ==> out[k] == luma,
        decreases pixels - j,
    {
        out.push(luma);
        j += 1;
    }
    out
}

/// Copies a byte buffer.
pub fn copy_bytes(source: &Vec<u8>) -> (out: Vec<u8>)
    ensures
        out@ == source@,
{
    let n = source.len();
    let mut out: Vec<u8> = Vec::with_capacity(n);
    let mut j: usize = 0;
    while j < n
        invariant
            n == source.len(),
            j <= n,
            out.len() == j,
            forall|k: int| 0 <= k < j ==> out[k] == source[k],
        decreases n - j,
    {
        out.push(source[j]);
        j += 1;
    }
    out
}

} // verus!
