//! A layered raster-image workspace: an ordered stack of painted layers, each
//! with an opacity, a blend mode and an alpha mask, composited bottom to top
//! into one output image, together with the binary format that stores the
//! stack.
#![allow(unused_imports)]

pub mod blend;
pub mod codec;
pub mod device;
pub mod raster;
pub mod workspace;
