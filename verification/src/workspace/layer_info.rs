//! Per-layer metadata, and the description from which a layer is created.

use crate::blend::OPACITY_ONE;
use crate::raster::{GrayImage, RgbaImage};
use vstd::prelude::*;

verus! {

/// A blend mode is known by its name; `"normal"` is the baseline.
pub type BlendMode = String;

/// The metadata of one layer.
#[derive(Debug, PartialEq, Eq)]
pub struct LayerInfo {
    /// The name shown for the layer.
    pub name: String,
    /// A hidden layer takes no part in the composite.
    pub visible: bool,
    /// Fixed-point opacity between 0 and `OPACITY_ONE`.
    pub opacity: u32,
    /// The name of the function that lays this layer over those below.
    pub blend_mode: BlendMode,
    /// Set for the scratch layer of a stroke in progress. The flag lives only
    /// in memory: it is not stored with the layer.
    pub is_tool_layer: bool,
}

/// The mathematical value of a `LayerInfo`.
pub struct LayerInfoView {
    pub name: Seq<char>,
    pub visible: bool,
    pub opacity: u32,
    pub blend_mode: Seq<char>,
    pub is_tool_layer: bool,
}

impl View for LayerInfo {
    type V = LayerInfoView;

    open spec fn view(&self) -> LayerInfoView {
        LayerInfoView {
            name: self.name@,
            visible: self.visible,
            opacity: self.opacity,
            blend_mode: self.blend_mode@,
            is_tool_layer: self.is_tool_layer,
        }
    }
}

impl Clone for LayerInfo {
    fn clone(&self) -> (r: Self)
        ensures
            r@ == self@,
    {
        LayerInfo {
            name: self.name.clone(),
            visible: self.visible,
            opacity: self.opacity,
            blend_mode: self.blend_mode.clone(),
            is_tool_layer: self.is_tool_layer,
        }
    }
}

/// What a new layer is made from: its metadata, at most one source for its
/// color and at most one for its mask.
#[derive(Debug, PartialEq, Eq)]
pub struct LayerCreationInfo {
    pub name: String,
    pub visible: bool,
    pub opacity: u32,
    pub blend_mode: BlendMode,
    pub is_tool_layer: bool,
    /// Color source: a ready pixel buffer of the canvas's size.
    pub init_texture: Option<Vec<u8>>,
    /// Color source: a decoded image of the canvas's size.
    pub init_image: Option<RgbaImage>,
    /// Color source: one color for every pixel.
    pub init_rgba: Option<[u8; 4]>,
    /// Mask source: a ready mask buffer of the canvas's size.
    pub init_mask_texture: Option<Vec<u8>>,
    /// Mask source: a decoded single-channel image of the canvas's size.
    pub init_mask_image: Option<GrayImage>,
    /// Mask source: one value for every pixel.
    pub init_mask_luma: Option<u8>,
}

impl LayerCreationInfo {
    /// How many color sources are given.
    pub open spec fn color_sources(&self) -> nat {
        (if self.init_texture is Some {
            1nat
        } else {
            0nat
        }) + (if self.init_image is Some {
            1nat
        } else {
            0nat
        }) + (if self.init_rgba is Some {
            1nat
        } else {
            0nat
        })
    }

    /// How many mask sources are given.
    pub open spec fn mask_sources(&self) -> nat {
        (if self.init_mask_texture is Some {
            1nat
        } else {
            0nat
        }) + (if self.init_mask_image is Some {
            1nat
        } else {
            0nat
        }) + (if self.init_mask_luma is Some {
            1nat
        } else {
            0nat
        })
    }

    /// The description can be made into a layer of a canvas of the given
    /// size: at most one color source and at most one mask source, each of
    /// the canvas's size, and an opacity that is a fraction of one.
    pub open spec fn fits(&self, size: (u32, u32)) -> bool {
        let pixels = size.0 as nat * size.1 as nat;
        &&& self.color_sources() <= 1
        &&& self.mask_sources() <= 1
        &&& self.opacity <= OPACITY_ONE
        &&& self.init_texture matches Some(buffer) ==> buffer@.len() == 4 * pixels
        &&& self.init_image matches Some(image) ==> image.data@.len() == 4 * pixels
        &&& self.init_mask_texture matches Some(buffer) ==> buffer@.len() == pixels
        &&& self.init_mask_image matches Some(image) ==> image.data@.len() == pixels
    }

    /// Whether the description can be made into a layer on a canvas of the
    /// given size.
    pub fn fits_canvas(&self, size: (u32, u32)) -> (r: bool)
        ensures
            r == self.fits(size),
    {
        assert(size.0 as nat * size.1 as nat <= 0xFFFF_FFFF * 0xFFFF_FFFF) by (nonlinear_arith)
            requires
                size.0 <= 0xFFFF_FFFF,
                size.1 <= 0xFFFF_FFFF,
        ;
        let pixels: u128 = (size.0 as u128) * (size.1 as u128);
        let colors: u8 = (if self.init_texture.is_some() {
            1u8
        } else {
            0u8
        }) + (if self.init_image.is_some() {
            1u8
        } else {
            0u8
        }) + (if self.init_rgba.is_some() {
            1u8
        } else {
            0u8
        });
        let masks: u8 = (if self.init_mask_texture.is_some() {
            1u8
        } else {
            0u8
        }) + (if self.init_mask_image.is_some() {
            1u8
        } else {
            0u8
        }) + (if self.init_mask_luma.is_some() {
            1u8
        } else {
            0u8
        });
        if colors > 1 || masks > 1 || self.opacity > OPACITY_ONE {
            return false;
        }
        if let Some(buffer) = &self.init_texture {
            if buffer.len() as u128 != 4 * pixels {
                return false;
            }
        }
        if let Some(image) = &self.init_image {
            if image.data.len() as u128 != 4 * pixels {
                return false;
            }
        }
        if let Some(buffer) = &self.init_mask_texture {
            if buffer.len() as u128 != pixels {
                return false;
            }
        }
        if let Some(image) = &self.init_mask_image {
            if image.data.len() as u128 != pixels {
                return false;
            }
        }
        true
    }

    /// The metadata that the new layer will carry.
    pub open spec fn info(&self) -> LayerInfoView {
        LayerInfoView {
            name: self.name@,
            visible: self.visible,
            opacity: self.opacity,
            blend_mode: self.blend_mode@,
            is_tool_layer: self.is_tool_layer,
        }
    }
}

impl Default for LayerCreationInfo {
    /// A visible, fully opaque "normal" layer named "New Layer", with no
    /// source given for its color or its mask.
    fn default() -> (r: Self)
        ensures
            r.name@ == "New Layer"@,
            r.visible,
            r.opacity == OPACITY_ONE,
            r.blend_mode@ == "normal"@,
            !r.is_tool_layer,
            r.color_sources() == 0,
            r.mask_sources() == 0,
    {
        Self {
            name: "New Layer".to_owned(),
            visible: true,
            opacity: OPACITY_ONE,
            blend_mode: "normal".to_owned(),
            is_tool_layer: false,
            init_texture: None,
            init_image: None,
            init_rgba: None,
            init_mask_texture: None,
            init_mask_image: None,
            init_mask_luma: None,
        }
    }
}

impl From<LayerCreationInfo> for LayerInfo {
    /// Keeps the metadata and drops the sources.
    fn from(info: LayerCreationInfo) -> (r: LayerInfo) {
        LayerInfo {
            name: info.name,
            visible: info.visible,
            opacity: info.opacity,
            blend_mode: info.blend_mode,
            is_tool_layer: info.is_tool_layer,
        }
    }
}

impl vstd::std_specs::convert::FromSpecImpl<LayerCreationInfo> for LayerInfo {
    open spec fn obeys_from_spec() -> bool {
        true
    }

    open spec fn from_spec(info: LayerCreationInfo) -> LayerInfo {
        LayerInfo {
            name: info.name,
            visible: info.visible,
            opacity: info.opacity,
            blend_mode: info.blend_mode,
            is_tool_layer: info.is_tool_layer,
        }
    }
}

} // verus!
