use joyful_create::blend::OPACITY_ONE;
use joyful_create::workspace::layer_info::LayerCreationInfo;
use joyful_create::codec::RawHeader;
use joyful_create::raster::{GrayImage, RgbaImage};
use joyful_create::workspace::workspace_serialization::{
    check_header, read_block, read_pair, write_block, LoadError, SaveError,
};
use joyful_create::workspace::Workspace;

fn two_layers() -> Workspace {
    let mut workspace = Workspace::default();
    workspace.size = (3, 2);
    workspace.zoom = 0x4000_0000;
    workspace.pixel_at_center = (0x3FC0_0000, 0x3F80_0000);
    workspace.create_layer(
        LayerCreationInfo {
            name: "Background".to_string(),
            init_rgba: Some([10, 20, 30, 255]),
            ..Default::default()
        },
        None,
    );
    let texture: Vec<u8> = (0..24).map(|i| (i * 9) as u8).collect();
    let mask: Vec<u8> = vec![0, 50, 100, 150, 200, 255];
    workspace.create_layer(
        LayerCreationInfo {
            name: "Paint".to_string(),
            opacity: OPACITY_ONE / 4 * 3,
            init_texture: Some(texture),
            init_mask_texture: Some(mask),
            ..Default::default()
        },
        None,
    );
    workspace
}

#[test]
fn save_then_load_gives_the_same_workspace() {
    let workspace = two_layers();
    let bytes = workspace.save().unwrap();
    let loaded = Workspace::load(&bytes).unwrap();
    assert_eq!(loaded.size, workspace.size);
    assert_eq!(loaded.zoom, workspace.zoom);
    assert_eq!(loaded.pixel_at_center, workspace.pixel_at_center);
    assert_eq!(loaded.layers.len(), 2);
    for (a, b) in loaded.layers.iter().zip(workspace.layers.iter()) {
        assert_eq!(a.name, b.name);
        assert_eq!(a.visible, b.visible);
        assert_eq!(a.opacity, b.opacity);
        assert_eq!(a.blend_mode, b.blend_mode);
    }
    for (a, b) in loaded.layer_data.iter().zip(workspace.layer_data.iter()) {
        assert_eq!(a.texture, b.texture);
        assert_eq!(a.mask, b.mask);
        assert_eq!(a.running_total, b.running_total);
    }
    assert_eq!(loaded.output_texture, workspace.output_texture);
}

#[test]
fn empty_workspace_round_trips() {
    let mut workspace = Workspace::default();
    workspace.size = (2, 2);
    let bytes = workspace.save().unwrap();
    let loaded = Workspace::load(&bytes).unwrap();
    assert_eq!(loaded.size, (2, 2));
    assert_eq!(loaded.layers.len(), 0);
    assert_eq!(loaded.layer_data.len(), 0);
    assert_eq!(loaded.output_texture, Some(vec![0u8; 16]));
}

#[test]
fn file_starts_with_the_header_length() {
    let mut workspace = Workspace::default();
    workspace.size = (2, 2);
    let bytes = workspace.save().unwrap();
    // size, zoom, center, and the length of an empty list of layers
    assert_eq!(&bytes[..4], [28, 0, 0, 0]);
    assert_eq!(bytes.len(), 32);
    assert_eq!(&bytes[4..12], [2, 0, 0, 0, 2, 0, 0, 0]);
    assert_eq!(&bytes[12..16], [0, 0, 0x80, 0x3F]);
}

#[test]
fn truncated_file_is_rejected() {
    let bytes = two_layers().save().unwrap();
    assert_eq!(Workspace::load(&[]).err(), Some(LoadError::Truncated));
    assert_eq!(Workspace::load(&bytes[..3]).err(), Some(LoadError::Truncated));
    assert_eq!(Workspace::load(&bytes[..10]).err(), Some(LoadError::Truncated));
    assert_eq!(Workspace::load(&bytes[..bytes.len() - 1]).err(), Some(LoadError::Truncated));
}

#[test]
fn malformed_header_is_rejected() {
    let mut bytes = Vec::new();
    write_block(&mut bytes, &[1, 2, 3]);
    assert_eq!(Workspace::load(&bytes).err(), Some(LoadError::Metadata));
}

#[test]
fn malformed_image_is_rejected() {
    let mut workspace = Workspace::default();
    workspace.size = (1, 1);
    workspace.create_layer(LayerCreationInfo::default(), None);
    let bytes = workspace.save().unwrap();
    let (start, end) = read_block(&bytes, 0).unwrap();
    let mut broken = bytes[..end].to_vec();
    assert_eq!(start, 4);
    write_block(&mut broken, &[0, 1, 2, 3, 4]);
    write_block(&mut broken, &[0, 1, 2, 3, 4]);
    assert_eq!(Workspace::load(&broken).err(), Some(LoadError::ImageDecode));
}

#[test]
fn blocks_are_framed_by_their_length() {
    let mut out = vec![7u8];
    write_block(&mut out, &[1, 2, 3]);
    assert_eq!(out, vec![7, 3, 0, 0, 0, 1, 2, 3]);
    assert_eq!(read_block(&out, 1), Ok((5, 8)));
    assert_eq!(read_block(&out, 5), Err(LoadError::Truncated));
    assert_eq!(read_block(&out, 100), Err(LoadError::Truncated));
    let long = vec![0u8; 300];
    let mut framed = Vec::new();
    write_block(&mut framed, &long);
    assert_eq!(&framed[..4], [44, 1, 0, 0]);
    assert_eq!(read_block(&framed, 0), Ok((4, 304)));
}

fn header(size: (u32, u32), layers: &[(&str, bool, u32, &str)]) -> RawHeader {
    (
        size,
        1.0f32.to_bits(),
        (0, 0),
        layers
            .iter()
            .map(|(name, visible, opacity, mode)| {
                (name.to_string(), *visible, *opacity, mode.to_string())
            })
            .collect(),
    )
}

fn pair(size: (u32, u32), shade: u8) -> (RgbaImage, GrayImage) {
    let pixels = (size.0 * size.1) as usize;
    (
        RgbaImage { width: size.0, height: size.1, data: vec![shade; 4 * pixels] },
        GrayImage { width: size.0, height: size.1, data: vec![255; pixels] },
    )
}

#[test]
fn layer_blocks_are_png_files() {
    let bytes = two_layers().save().unwrap();
    let (_, header_end) = read_block(&bytes, 0).unwrap();
    let (color_start, color_end) = read_block(&bytes, header_end).unwrap();
    let (mask_start, _) = read_block(&bytes, color_end).unwrap();
    let signature = [0x89, b'P', b'N', b'G', 0x0D, 0x0A, 0x1A, 0x0A];
    assert_eq!(&bytes[color_start..color_start + 8], signature);
    assert_eq!(&bytes[mask_start..mask_start + 8], signature);
    // color type: 6 is RGBA, 0 is grayscale
    assert_eq!(bytes[color_start + 25], 6);
    assert_eq!(bytes[mask_start + 25], 0);
    let ((color, mask), next) = read_pair(&bytes, header_end).unwrap();
    assert_eq!((color.width, color.height), (3, 2));
    assert_eq!(color.data, vec![10, 20, 30, 255].repeat(6));
    assert_eq!((mask.width, mask.height), (3, 2));
    assert_eq!(mask.data, vec![255; 6]);
    assert!(next < bytes.len());
    assert_eq!(read_pair(&bytes, bytes.len()).err(), Some(LoadError::Truncated));
}

#[test]
fn header_stores_names_and_metadata() {
    let workspace = two_layers();
    let header = workspace.header();
    assert_eq!(header.0, (3, 2));
    assert_eq!(header.1, 0x4000_0000);
    assert_eq!(header.2, (0x3FC0_0000, 0x3F80_0000));
    assert_eq!(
        header.3,
        vec![
            ("Background".to_string(), true, OPACITY_ONE, "normal".to_string()),
            ("Paint".to_string(), true, OPACITY_ONE / 4 * 3, "normal".to_string()),
        ]
    );
    let bytes = workspace.save().unwrap();
    let (start, _) = read_block(&bytes, 0).unwrap();
    // the list of layers: its length, then the first name with its length
    assert_eq!(&bytes[start + 20..start + 28], [2, 0, 0, 0, 0, 0, 0, 0]);
    assert_eq!(&bytes[start + 28..start + 36], [10, 0, 0, 0, 0, 0, 0, 0]);
    assert_eq!(&bytes[start + 36..start + 46], b"Background");
}

#[test]
fn headers_are_checked() {
    assert!(check_header(&header((4, 4), &[("a", true, OPACITY_ONE, "normal")])));
    assert!(check_header(&header((0, 9), &[])));
    assert!(!check_header(&header((4, 4), &[("a", true, OPACITY_ONE + 1, "normal")])));
    assert!(!check_header(&header((4, 4), &[("a", true, 0, "dissolve")])));
    assert!(check_header(&header((4, 4), &[("a", false, 0, "dissolve")])));
    assert!(!check_header(&header((u32::MAX, u32::MAX), &[])));
}

#[test]
fn parts_make_a_composited_workspace() {
    let size = (2, 1);
    let parts = header(
        size,
        &[("a", true, OPACITY_ONE, "normal"), ("b", true, OPACITY_ONE / 2, "normal")],
    );
    let workspace = Workspace::from_parts(parts, vec![pair(size, 100), pair(size, 200)]).unwrap();
    assert_eq!(workspace.size, size);
    assert_eq!(workspace.layers.len(), 2);
    assert_eq!(workspace.layers[1].name, "b");
    assert!(!workspace.layers[1].is_tool_layer);
    assert_eq!(workspace.layer_data[0].texture, vec![100; 8]);
    assert_eq!(workspace.layer_data[1].texture, vec![200; 8]);
    assert_eq!(workspace.layer_data[0].running_total, vec![100; 8]);
    assert_eq!(workspace.output_texture, Some(vec![150; 8]));
    assert_eq!(workspace.selected_layer, None);
    assert!(workspace.is_well_formed());
}

#[test]
fn parts_that_do_not_fit_are_rejected() {
    let size = (2, 1);
    let one = [("a", true, OPACITY_ONE, "normal")];
    assert_eq!(
        Workspace::from_parts(header(size, &one), vec![]).err(),
        Some(LoadError::LayerMismatch)
    );
    assert_eq!(
        Workspace::from_parts(header(size, &one), vec![pair(size, 1), pair(size, 2)]).err(),
        Some(LoadError::LayerMismatch)
    );
    assert_eq!(
        Workspace::from_parts(header(size, &one), vec![pair((1, 2), 1)]).err(),
        Some(LoadError::LayerMismatch)
    );
    let mut short = pair(size, 1);
    short.1.data.pop();
    assert_eq!(
        Workspace::from_parts(header(size, &one), vec![short]).err(),
        Some(LoadError::LayerMismatch)
    );
    let opaque = [("a", true, OPACITY_ONE + 1, "normal")];
    assert_eq!(
        Workspace::from_parts(header(size, &opaque), vec![pair(size, 1)]).err(),
        Some(LoadError::Metadata)
    );
    let unknown = [("a", true, OPACITY_ONE, "burn")];
    assert_eq!(
        Workspace::from_parts(header(size, &unknown), vec![pair(size, 1)]).err(),
        Some(LoadError::Metadata)
    );
}

#[test]
fn a_file_with_images_of_another_size_is_rejected() {
    let mut small = Workspace::default();
    small.size = (1, 1);
    small.create_layer(LayerCreationInfo::default(), None);
    let small_file = small.save().unwrap();
    let mut large = Workspace::default();
    large.size = (2, 2);
    large.create_layer(LayerCreationInfo::default(), None);
    let large_file = large.save().unwrap();
    let (_, small_header_end) = read_block(&small_file, 0).unwrap();
    let (_, large_header_end) = read_block(&large_file, 0).unwrap();
    let mut mixed = small_file[..small_header_end].to_vec();
    mixed.extend_from_slice(&large_file[large_header_end..]);
    assert_eq!(Workspace::load(&mixed).err(), Some(LoadError::LayerMismatch));
}

#[test]
fn a_file_with_an_unknown_blend_mode_is_rejected_only_when_it_shows() {
    let mut workspace = Workspace::default();
    workspace.size = (1, 1);
    workspace.create_layer(LayerCreationInfo::default(), None);
    workspace.layers[0].blend_mode = "overlay".to_string();
    let bytes = workspace.save().unwrap();
    assert_eq!(Workspace::load(&bytes).err(), Some(LoadError::Metadata));
    workspace.layers[0].visible = false;
    let bytes = workspace.save().unwrap();
    let loaded = Workspace::load(&bytes).unwrap();
    assert_eq!(loaded.layers[0].blend_mode, "overlay");
    assert_eq!(loaded.output_texture, Some(vec![0, 0, 0, 0]));
}

#[test]
fn bytes_after_the_last_layer_are_ignored() {
    let workspace = two_layers();
    let mut bytes = workspace.save().unwrap();
    bytes.extend_from_slice(&[1, 2, 3, 4, 5, 6, 7]);
    let loaded = Workspace::load(&bytes).unwrap();
    assert_eq!(loaded.layers.len(), 2);
    assert_eq!(loaded.output_texture, workspace.output_texture);
}

#[test]
fn scratch_layers_are_stored_as_ordinary_layers() {
    let mut workspace = two_layers();
    workspace.layers[1].is_tool_layer = true;
    let loaded = Workspace::load(&workspace.save().unwrap()).unwrap();
    assert!(!loaded.layers[1].is_tool_layer);
    assert_eq!(loaded.output_texture, workspace.output_texture);
}

#[test]
fn an_empty_canvas_cannot_be_encoded() {
    let mut workspace = Workspace::default();
    workspace.size = (0, 4);
    workspace.create_layer(LayerCreationInfo::default(), None);
    assert_eq!(workspace.save().err(), Some(SaveError::ImageEncode));
}

#[test]
fn errors_name_the_failed_step() {
    assert!(LoadError::Truncated.message().starts_with("file"));
    assert!(LoadError::Metadata.message().starts_with("metadata parse"));
    assert!(LoadError::ImageDecode.message().starts_with("decode"));
    assert!(LoadError::LayerMismatch.message().starts_with("decode"));
    assert!(SaveError::Metadata.message().starts_with("metadata"));
    assert!(SaveError::ImageEncode.message().starts_with("encode"));
    assert!(SaveError::TooLarge.message().starts_with("file"));
    assert_ne!(LoadError::ImageDecode.message(), LoadError::LayerMismatch.message());
}
