//! The outside codecs that the file format rests on: PNG, from the `image`
//! crate, for the pixels of a layer, and `bincode` for the header. Nothing in
//! this file is proved. Each function below states what is taken on trust
//! of the call that it makes.

use crate::raster::{GrayImage, RgbaImage};
use vstd::prelude::*;

verus! {

/// The error type of the `image` crate.
#[verifier::external_type_specification]
#[verifier::external_body]
pub struct ExImageError(image::ImageError);

/// The error type of `bincode`, which it hands out boxed.
#[verifier::external_type_specification]
#[verifier::external_body]
pub struct ExBincodeErrorKind(bincode::ErrorKind);

/// One layer of a header as it is stored: name, visibility, opacity, and
/// the name of the blend mode.
pub type RawLayer = (String, bool, u32, String);

/// A header as it is stored: canvas size, zoom, the position at the center
/// of the view, and the layers, bottom first.
pub type RawHeader = ((u32, u32), u32, (u32, u32), Vec<RawLayer>);

/// The mathematical value of a stored layer.
pub type RawLayerView = (Seq<char>, bool, u32, Seq<char>);

/// The values of the stored layers of a header.
pub open spec fn raw_layers_view(layers: Seq<RawLayer>) -> Seq<RawLayerView> {
    Seq::new(layers.len(), |i: int| (layers[i].0@, layers[i].1, layers[i].2, layers[i].3@))
}

/// The PNG file that the encoder makes of an image of four 8-bit channels,
/// or `None` where it reports an error.
pub uninterp spec fn png_rgba_encoding(width: u32, height: u32, pixels: Seq<u8>) -> Option<Seq<u8>>;

/// The PNG file that the encoder makes of an image of one 8-bit channel, or
/// `None` where it reports an error.
pub uninterp spec fn png_luma_encoding(width: u32, height: u32, pixels: Seq<u8>) -> Option<Seq<u8>>;

/// Width, height and pixels, four channels each, of the image that the
/// decoder reads from a PNG file, or `None` where it reports an error.
pub uninterp spec fn png_rgba_decoding(bytes: Seq<u8>) -> Option<(u32, u32, Seq<u8>)>;

/// Width, height and pixels, one channel each, of the image that the decoder
/// reads from a PNG file, or `None` where it reports an error.
pub uninterp spec fn png_luma_decoding(bytes: Seq<u8>) -> Option<(u32, u32, Seq<u8>)>;

/// The bytes that `bincode` makes of a header, or `None` where it reports an
/// error.
pub uninterp spec fn header_encoding(
    width: u32,
    height: u32,
    zoom: u32,
    center_x: u32,
    center_y: u32,
    layers: Seq<RawLayerView>,
) -> Option<Seq<u8>>;

/// The header that `bincode` reads from the front of `bytes`, or `None`
/// where it reports an error.
pub uninterp spec fn header_decoding(bytes: Seq<u8>) -> Option<
    ((u32, u32), u32, (u32, u32), Seq<RawLayerView>),
>;

/// Calls `PngEncoder::write_image` of the `image` crate for an image of four
/// 8-bit channels, with the best compression and no filter. Trusted: the
/// call returns, and what it writes depends on width, height and pixels
/// alone. The length demanded is the one that the encoder asserts.
#[verifier::external_body]
pub(crate) fn encode_png_rgba(pixels: &[u8], width: u32, height: u32) -> (r: Result<
    Vec<u8>,
    image::ImageError,
>)
    requires
        pixels@.len() == 4 * (width as nat * height as nat),
    ensures
        (match r {
            Ok(bytes) => png_rgba_encoding(width, height, pixels@) == Some(bytes@),
            Err(_) => png_rgba_encoding(width, height, pixels@) is None,
        }),
{
    let mut bytes = Vec::new();
    let encoder = image::codecs::png::PngEncoder::new_with_quality(
        &mut bytes,
        image::codecs::png::CompressionType::Best,
        image::codecs::png::FilterType::NoFilter,
    );
    let color = image::ExtendedColorType::Rgba8;
    match image::ImageEncoder::write_image(encoder, pixels, width, height, color) {
        Ok(()) => Ok(bytes),
        Err(error) => Err(error),
    }
}

/// Calls `PngEncoder::write_image` of the `image` crate for an image of one
/// 8-bit channel, with the best compression and no filter. Trusted: the call
/// returns, and what it writes depends on width, height and pixels alone.
/// The length demanded is the one that the encoder asserts.
#[verifier::external_body]
pub(crate) fn encode_png_luma(pixels: &[u8], width: u32, height: u32) -> (r: Result<
    Vec<u8>,
    image::ImageError,
>)
    requires
        pixels@.len() == width as nat * height as nat,
    ensures
        (match r {
            Ok(bytes) => png_luma_encoding(width, height, pixels@) == Some(bytes@),
            Err(_) => png_luma_encoding(width, height, pixels@) is None,
        }),
{
    let mut bytes = Vec::new();
    let encoder = image::codecs::png::PngEncoder::new_with_quality(
        &mut bytes,
        image::codecs::png::CompressionType::Best,
        image::codecs::png::FilterType::NoFilter,
    );
    let color = image::ExtendedColorType::L8;
    match image::ImageEncoder::write_image(encoder, pixels, width, height, color) {
        Ok(()) => Ok(bytes),
        Err(error) => Err(error),
    }
}

/// Calls `ImageReader::decode` of the `image` crate on a PNG file, with the
/// reader's default limits, and `DynamicImage::into_rgba8` on what it
/// gives. Trusted: the call returns, and the image depends on the bytes
/// alone. Nothing is claimed of the length of the pixel buffer.
#[verifier::external_body]
pub(crate) fn decode_png_rgba(bytes: &[u8]) -> (r: Result<RgbaImage, image::ImageError>)
    ensures
        (match r {
            Ok(image) => png_rgba_decoding(bytes@) == Some(
                (image.width, image.height, image.data@),
            ),
            Err(_) => png_rgba_decoding(bytes@) is None,
        }),
{
    let reader = image::ImageReader::with_format(
        std::io::Cursor::new(bytes),
        image::ImageFormat::Png,
    );
    let image = reader.decode()?.into_rgba8();
    Ok(RgbaImage { width: image.width(), height: image.height(), data: image.into_vec() })
}

/// Calls `ImageReader::decode` of the `image` crate on a PNG file, with the
/// reader's default limits, and `DynamicImage::into_luma8` on what it
/// gives. Trusted: the call returns, and the image depends on the bytes
/// alone. Nothing is claimed of the length of the pixel buffer.
#[verifier::external_body]
pub(crate) fn decode_png_luma(bytes: &[u8]) -> (r: Result<GrayImage, image::ImageError>)
    ensures
        (match r {
            Ok(image) => png_luma_decoding(bytes@) == Some(
                (image.width, image.height, image.data@),
            ),
            Err(_) => png_luma_decoding(bytes@) is None,
        }),
{
    let reader = image::ImageReader::with_format(
        std::io::Cursor::new(bytes),
        image::ImageFormat::Png,
    );
    let image = reader.decode()?.into_luma8();
    Ok(GrayImage { width: image.width(), height: image.height(), data: image.into_vec() })
}

/// Calls `bincode::serialize` on a header. Trusted: the call returns, and
/// the bytes depend on the header's values alone.
#[verifier::external_body]
pub(crate) fn serialize_header(header: &RawHeader) -> (r: Result<Vec<u8>, Box<bincode::ErrorKind>>)
    ensures
        (match r {
            Ok(bytes) => header_encoding(
                header.0.0,
                header.0.1,
                header.1,
                header.2.0,
                header.2.1,
                raw_layers_view(header.3@),
            ) == Some(bytes@),
            Err(_) => header_encoding(
                header.0.0,
                header.0.1,
                header.1,
                header.2.0,
                header.2.1,
                raw_layers_view(header.3@),
            ) is None,
        }),
{
    bincode::serialize(header)
}

/// Calls `bincode::deserialize` for a header. Trusted: the call returns,
/// and the header depends on the bytes alone.
#[verifier::external_body]
pub(crate) fn deserialize_header(bytes: &[u8]) -> (r: Result<RawHeader, Box<bincode::ErrorKind>>)
    ensures
        (match r {
            Ok(header) => header_decoding(bytes@) == Some(
                (header.0, header.1, header.2, raw_layers_view(header.3@)),
            ),
            Err(_) => header_decoding(bytes@) is None,
        }),
{
    bincode::deserialize(bytes)
}

} // verus!
