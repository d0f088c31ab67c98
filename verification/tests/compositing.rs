use joyful_create::blend::{
    blend_channel, blend_normal, resolve_blend_mode, BlendFunction, OPACITY_ONE,
};
use joyful_create::workspace::layer_info::{LayerCreationInfo, LayerInfo};
use joyful_create::workspace::{LayerData, Workspace};

fn canvas(width: u32, height: u32) -> Workspace {
    let mut workspace = Workspace::default();
    workspace.size = (width, height);
    workspace
}

fn copy_of(workspace: &Workspace) -> Workspace {
    let copy = workspace.clone();
    assert_eq!(&copy, workspace);
    copy
}

fn ramp(len: usize, step: usize, offset: usize) -> Vec<u8> {
    (0..len).map(|i| ((i * step + offset) % 256) as u8).collect()
}

/// Three layers on a 2 by 2 canvas, each with its own colors, mask and
/// opacity.
fn three_layers() -> Workspace {
    let mut workspace = canvas(2, 2);
    workspace.create_layer(
        LayerCreationInfo {
            name: "Bottom".to_string(),
            init_texture: Some(ramp(16, 13, 5)),
            ..Default::default()
        },
        None,
    );
    workspace.create_layer(
        LayerCreationInfo {
            name: "Middle".to_string(),
            opacity: OPACITY_ONE / 2,
            init_texture: Some(ramp(16, 7, 100)),
            init_mask_texture: Some(vec![255, 128, 64, 0]),
            ..Default::default()
        },
        None,
    );
    workspace.create_layer(
        LayerCreationInfo {
            name: "Top".to_string(),
            opacity: OPACITY_ONE / 4,
            init_rgba: Some([200, 100, 50, 255]),
            init_mask_luma: Some(200),
            ..Default::default()
        },
        None,
    );
    workspace
}

#[test]
fn half_opaque_red_over_white() {
    let mut workspace = canvas(2, 2);
    workspace.create_layer(
        LayerCreationInfo {
            name: "Background".to_string(),
            init_rgba: Some([255, 255, 255, 255]),
            ..Default::default()
        },
        None,
    );
    workspace.create_layer(
        LayerCreationInfo {
            name: "Red".to_string(),
            opacity: OPACITY_ONE / 2,
            init_rgba: Some([255, 0, 0, 255]),
            init_mask_luma: Some(128),
            ..Default::default()
        },
        None,
    );
    let output = workspace.output_texture.clone().unwrap();
    assert_eq!(output.len(), 16);
    for pixel in output.chunks(4) {
        assert_eq!(pixel, [255, 191, 191, 255]);
    }
    assert_eq!(workspace.layer_data[0].running_total, vec![255u8; 16]);
    assert_eq!(workspace.layer_data[1].running_total, output);
}

#[test]
fn empty_stack_is_transparent() {
    let mut workspace = canvas(2, 2);
    workspace.recalculate_output_texture(0);
    assert_eq!(workspace.output_texture, Some(vec![0u8; 16]));
    let mut built = canvas(3, 1);
    built.build_output_texture();
    assert_eq!(built.output_texture, Some(vec![0u8; 12]));
}

#[test]
fn insertion_leaves_the_caches_below_untouched() {
    let mut workspace = three_layers();
    let bottom_cache = workspace.layer_data[0].running_total.clone();
    let old_output = workspace.output_texture.clone();
    workspace.create_layer(
        LayerCreationInfo {
            name: "Inserted".to_string(),
            init_rgba: Some([0, 255, 0, 255]),
            init_mask_luma: Some(90),
            ..Default::default()
        },
        Some(1),
    );
    assert_eq!(workspace.layers.len(), 4);
    assert_eq!(workspace.layers[1].name, "Inserted");
    assert_eq!(workspace.layers[2].name, "Middle");
    assert_eq!(workspace.layer_data[0].running_total, bottom_cache);
    assert_ne!(workspace.output_texture, old_output);
    let mut fresh = copy_of(&workspace);
    fresh.output_texture = None;
    fresh.recalculate_output_texture(0);
    assert_eq!(fresh, workspace);
}

#[test]
fn compositing_twice_gives_the_same_bytes() {
    let mut workspace = three_layers();
    workspace.recalculate_output_texture(0);
    let first = copy_of(&workspace);
    workspace.recalculate_output_texture(0);
    assert_eq!(workspace, first);
    // the output does not depend on what the caches held before
    let mut scrambled = copy_of(&workspace);
    for data in scrambled.layer_data.iter_mut() {
        data.running_total = vec![77u8; 16];
    }
    scrambled.output_texture = Some(vec![1u8; 16]);
    scrambled.recalculate_output_texture(0);
    assert_eq!(scrambled.output_texture, first.output_texture);
}

#[test]
fn recompute_from_the_edited_layer_matches_a_full_recompute() {
    for k in 0..3 {
        for edit in 0..3 {
            let mut incremental = three_layers();
            match edit {
                0 => incremental.layers[k].opacity = OPACITY_ONE / 3,
                1 => incremental.layers[k].visible = false,
                _ => incremental.layers[k].blend_mode = "normal".to_string(),
            }
            let mut full = copy_of(&incremental);
            incremental.recalculate_output_texture(k);
            full.recalculate_output_texture(0);
            assert_eq!(incremental.output_texture, full.output_texture);
            assert_eq!(incremental, full);
        }
    }
}

#[test]
fn replacing_metadata_recomputes_from_the_layer() {
    let mut workspace = three_layers();
    let below = workspace.layer_data[0].running_total.clone();
    workspace.set_layer_info(
        1,
        LayerInfo {
            name: "Renamed".to_string(),
            visible: true,
            opacity: OPACITY_ONE,
            blend_mode: "normal".to_string(),
            is_tool_layer: false,
        },
    );
    assert_eq!(workspace.layers[1].name, "Renamed");
    assert_eq!(workspace.layer_data[0].running_total, below);
    let mut full = copy_of(&workspace);
    full.output_texture = None;
    full.recalculate_output_texture(0);
    assert_eq!(workspace, full);
    // where the mask is opaque, the middle layer now covers the bottom one
    assert_eq!(
        workspace.layer_data[1].running_total[..4],
        workspace.layer_data[1].texture[..4]
    );
}

#[test]
fn hidden_layer_changes_nothing() {
    let mut workspace = three_layers();
    workspace.layers[1].visible = false;
    workspace.recalculate_output_texture(1);
    let stale = workspace.layer_data[1].running_total.clone();
    // whatever the hidden layer holds, the output stays
    let mut other = copy_of(&workspace);
    other.layer_data[1].texture = vec![9u8; 16];
    other.layer_data[1].mask = vec![255u8; 4];
    other.recalculate_output_texture(0);
    assert_eq!(other.output_texture, workspace.output_texture);
    assert_eq!(other.layer_data[1].running_total, stale);
    // and the output is that of the stack without the hidden layer
    let mut without = copy_of(&workspace);
    without.remove_layer(1);
    assert_eq!(without.output_texture, workspace.output_texture);
    // a hidden topmost layer is passed over as well
    let mut top_hidden = three_layers();
    top_hidden.layers[2].visible = false;
    top_hidden.recalculate_output_texture(2);
    assert_eq!(
        top_hidden.output_texture,
        Some(top_hidden.layer_data[1].running_total.clone())
    );
}

#[test]
fn opacity_zero_on_top_shows_the_stack_below() {
    let mut workspace = three_layers();
    workspace.layers[2].opacity = 0;
    workspace.recalculate_output_texture(2);
    let mut without = copy_of(&workspace);
    without.remove_layer(2);
    assert_eq!(workspace.output_texture, without.output_texture);
    assert_eq!(
        workspace.output_texture,
        Some(workspace.layer_data[1].running_total.clone())
    );
}

#[test]
fn full_opacity_under_an_opaque_mask_shows_the_layer() {
    let mut workspace = three_layers();
    let colors = ramp(16, 11, 3);
    workspace.create_layer(
        LayerCreationInfo {
            name: "Cover".to_string(),
            init_texture: Some(colors.clone()),
            ..Default::default()
        },
        None,
    );
    assert_eq!(workspace.output_texture, Some(colors));
}

#[test]
fn blend_channel_rounds_to_nearest() {
    // no coverage: the base; full coverage: the color
    assert_eq!(blend_channel(17, 200, 0, 255), 17);
    assert_eq!(blend_channel(17, 200, OPACITY_ONE, 0), 17);
    assert_eq!(blend_channel(17, 200, OPACITY_ONE, 255), 200);
    // half opacity over a full mask: (0 + 255) / 2 = 127.5, rounded up
    assert_eq!(blend_channel(0, 255, OPACITY_ONE / 2, 255), 128);
    assert_eq!(blend_channel(255, 0, OPACITY_ONE / 2, 255), 128);
    // 100 * 0.75 + 200 * 0.25 = 125
    assert_eq!(blend_channel(100, 200, OPACITY_ONE / 4, 255), 125);
    // coverage 64/255: 255 - 64 = 191
    assert_eq!(blend_channel(255, 0, OPACITY_ONE / 2, 128), 191);
    // coverage 1/255 of 255 is exactly 1
    assert_eq!(blend_channel(0, 255, OPACITY_ONE, 1), 1);
    // 10 + (20 - 10) * 0.5 * (51 / 255) = 11
    assert_eq!(blend_channel(10, 20, OPACITY_ONE / 2, 51), 11);
    // 10 * 0.96 + 20 * 0.04 = 10.4
    assert_eq!(blend_channel(10, 20, OPACITY_ONE / 5, 51), 10);
}

#[test]
fn blend_normal_uses_one_mask_value_per_pixel() {
    let base = vec![0, 0, 0, 0, 100, 100, 100, 100];
    let color = vec![255, 255, 255, 255, 200, 200, 200, 200];
    let mask = vec![255, 0];
    let out = blend_normal(Some(&base), &color, &mask, OPACITY_ONE);
    assert_eq!(out, vec![255, 255, 255, 255, 100, 100, 100, 100]);
    let over_nothing = blend_normal(None, &color, &mask, OPACITY_ONE / 2);
    assert_eq!(over_nothing, vec![128, 128, 128, 128, 0, 0, 0, 0]);
}

#[test]
fn only_normal_is_a_known_blend_mode() {
    assert_eq!(resolve_blend_mode("normal"), Some(BlendFunction::Normal));
    assert_eq!(resolve_blend_mode("Normal"), None);
    assert_eq!(resolve_blend_mode("multiply"), None);
    assert_eq!(resolve_blend_mode(""), None);
}

#[test]
fn first_recompute_starts_at_the_bottom() {
    let layer = |name: &str, rgba: [u8; 4]| {
        (
            LayerInfo {
                name: name.to_string(),
                visible: true,
                opacity: OPACITY_ONE / 2,
                blend_mode: "normal".to_string(),
                is_tool_layer: false,
            },
            LayerData {
                texture: rgba.to_vec(),
                mask: vec![255],
                running_total: vec![0; 4],
            },
        )
    };
    let mut workspace = canvas(1, 1);
    for (info, data) in [layer("a", [200, 0, 0, 255]), layer("b", [0, 100, 0, 255])] {
        workspace.layers.push(info);
        workspace.layer_data.push(data);
    }
    assert!(workspace.is_well_formed());
    assert!(workspace.is_composable_from(0));
    // no output yet: asking for layer 1 composites from layer 0
    workspace.recalculate_output_texture(1);
    assert_eq!(workspace.layer_data[0].running_total, vec![100, 0, 0, 128]);
    assert_eq!(workspace.layer_data[1].running_total, vec![50, 50, 0, 192]);
    assert_eq!(workspace.output_texture, Some(vec![50, 50, 0, 192]));
}
