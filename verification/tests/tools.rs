use joyful_create::blend::OPACITY_ONE;
use joyful_create::workspace::layer_info::LayerCreationInfo;
use joyful_create::workspace::tools::brush::{BrushTool, BrushToolSettings};
use joyful_create::workspace::tools::{ActionOrigin, Mutation, SelectTool, Tool};
use joyful_create::workspace::Workspace;

fn at(x: f32, y: f32) -> (u32, u32) {
    (x.to_bits(), y.to_bits())
}

fn two_layers() -> Workspace {
    let mut workspace = Workspace::default();
    workspace.size = (2, 1);
    for (name, shade) in [("a", 40u8), ("b", 80u8)] {
        workspace.create_layer(
            LayerCreationInfo {
                name: name.to_string(),
                init_rgba: Some([shade, shade, shade, 255]),
                ..Default::default()
            },
            None,
        );
    }
    workspace
}

fn red_brush() -> BrushTool {
    BrushTool::new(BrushToolSettings { color: Some([255, 0, 0, 255]), ..Default::default() })
}

fn names(workspace: &Workspace) -> Vec<String> {
    workspace.layers.iter().map(|layer| layer.name.clone()).collect()
}

#[test]
fn select_tool_changes_nothing() {
    let mut workspace = two_layers();
    let before = format!("{:?}", workspace);
    let mut tool = SelectTool;
    assert_eq!(tool.name(), "Select");
    for origin in [
        ActionOrigin::MouseDown(at(0.0, 0.0)),
        ActionOrigin::MouseMove(at(1.0, 0.0)),
        ActionOrigin::MouseUp(at(1.0, 0.0)),
    ] {
        assert_eq!(workspace.perform_action(&mut tool, origin), Mutation::Nothing);
    }
    assert_eq!(format!("{:?}", workspace), before);
}

#[test]
fn brush_settings_default_to_a_hard_round_brush() {
    let settings = BrushToolSettings::default();
    assert_eq!(settings.size, 10.0f32.to_bits());
    assert_eq!(settings.color, None);
    assert_eq!(settings.texture, None);
    assert_eq!(settings.blend_mode, "normal");
    assert_eq!(settings.hardness, 1.0f32.to_bits());
    assert_eq!(settings.rotation, 0.0f32.to_bits());
    assert_eq!(settings.opacity, 1.0f32.to_bits());
    let tool = BrushTool::new(BrushToolSettings { size: 50.0f32.to_bits(), ..settings });
    assert_eq!(tool.name(), "Brush");
    assert_eq!(tool.size, 50.0f32.to_bits());
    assert!(tool.path.is_empty());
    assert_eq!(tool.stroke_layer, None);
}

#[test]
fn pressing_creates_a_scratch_layer_above_the_selected_one() {
    let mut workspace = two_layers();
    workspace.selected_layer = Some(0);
    let output = workspace.output_texture.clone();
    let mut tool = red_brush();
    let done = workspace.perform_action(&mut tool, ActionOrigin::MouseDown(at(0.5, 0.5)));
    assert_eq!(done, Mutation::Stamp { layer: 1 });
    assert_eq!(names(&workspace), ["a", "Brush Layer", "b"]);
    assert!(workspace.layers[1].is_tool_layer);
    assert!(workspace.layers[1].visible);
    assert_eq!(workspace.layers[1].opacity, OPACITY_ONE);
    assert_eq!(workspace.layer_data[1].texture, vec![255, 0, 0, 255, 255, 0, 0, 255]);
    assert_eq!(workspace.layer_data[1].mask, vec![0, 0]);
    assert_eq!(tool.path, vec![at(0.5, 0.5)]);
    assert_eq!(tool.stroke_layer, Some(1));
    // nothing is painted yet
    assert_eq!(workspace.output_texture, output);
    assert_eq!(workspace.listed_layers(), vec![2, 0]);
}

#[test]
fn without_a_selection_the_scratch_layer_goes_on_top() {
    let mut workspace = two_layers();
    let mut tool = red_brush();
    let done = tool.perform_action(&mut workspace, ActionOrigin::MouseDown(at(0.0, 0.0)));
    assert_eq!(done, Mutation::Stamp { layer: 2 });
    assert_eq!(names(&workspace), ["a", "b", "Brush Layer"]);
    let mut other = two_layers();
    other.selected_layer = Some(9);
    let mut tool = red_brush();
    let done = tool.perform_action(&mut other, ActionOrigin::MouseDown(at(0.0, 0.0)));
    assert_eq!(done, Mutation::Stamp { layer: 2 });
}

#[test]
fn moving_extends_the_path_of_the_stroke() {
    let mut workspace = two_layers();
    let mut tool = red_brush();
    // no stroke yet: moving does nothing
    let done = tool.perform_action(&mut workspace, ActionOrigin::MouseMove(at(3.0, 3.0)));
    assert_eq!(done, Mutation::Nothing);
    assert!(tool.path.is_empty());
    assert_eq!(workspace.layers.len(), 2);
    tool.perform_action(&mut workspace, ActionOrigin::MouseDown(at(0.0, 0.0)));
    let done = tool.perform_action(&mut workspace, ActionOrigin::MouseMove(at(1.0, 0.25)));
    assert_eq!(done, Mutation::Stamp { layer: 2 });
    let done = tool.perform_action(&mut workspace, ActionOrigin::MouseMove(at(1.5, 0.5)));
    assert_eq!(done, Mutation::Stamp { layer: 2 });
    assert_eq!(tool.path, vec![at(0.0, 0.0), at(1.0, 0.25), at(1.5, 0.5)]);
    assert_eq!(workspace.layers.len(), 3);
}

#[test]
fn releasing_merges_the_stroke_into_the_layer_beneath() {
    let mut workspace = two_layers();
    workspace.selected_layer = Some(0);
    let mut tool = red_brush();
    let done = tool.perform_action(&mut workspace, ActionOrigin::MouseDown(at(0.0, 0.0)));
    assert_eq!(done, Mutation::Stamp { layer: 1 });
    // the host has rasterized the stroke: the left pixel is painted
    workspace.set_layer_mask(1, vec![255, 0]);
    assert_eq!(workspace.output_texture, Some(vec![80, 80, 80, 255, 80, 80, 80, 255]));
    workspace.layers[2].visible = false;
    workspace.recalculate_output_texture(2);
    assert_eq!(workspace.output_texture, Some(vec![255, 0, 0, 255, 40, 40, 40, 255]));
    let done = tool.perform_action(&mut workspace, ActionOrigin::MouseUp(at(0.0, 0.0)));
    assert_eq!(done, Mutation::Committed { layer: 0 });
    assert_eq!(names(&workspace), ["a", "b"]);
    assert_eq!(workspace.layer_data[0].texture, vec![255, 0, 0, 255, 40, 40, 40, 255]);
    assert_eq!(workspace.output_texture, Some(vec![255, 0, 0, 255, 40, 40, 40, 255]));
    assert!(tool.path.is_empty());
    assert_eq!(tool.stroke_layer, None);
    // the stroke is over: releasing again does nothing
    let done = tool.perform_action(&mut workspace, ActionOrigin::MouseUp(at(0.0, 0.0)));
    assert_eq!(done, Mutation::Nothing);
    assert_eq!(names(&workspace), ["a", "b"]);
}

#[test]
fn a_stroke_on_an_empty_stack_becomes_a_layer() {
    let mut workspace = Workspace::default();
    workspace.size = (1, 1);
    let mut tool = red_brush();
    let done = tool.perform_action(&mut workspace, ActionOrigin::MouseDown(at(0.0, 0.0)));
    assert_eq!(done, Mutation::Stamp { layer: 0 });
    workspace.set_layer_mask(0, vec![255]);
    let done = tool.perform_action(&mut workspace, ActionOrigin::MouseUp(at(0.0, 0.0)));
    assert_eq!(done, Mutation::Committed { layer: 0 });
    assert_eq!(names(&workspace), ["Brush Layer"]);
    assert!(!workspace.layers[0].is_tool_layer);
    assert_eq!(workspace.output_texture, Some(vec![255, 0, 0, 255]));
}

#[test]
fn cancelling_discards_the_stroke() {
    let mut workspace = two_layers();
    let before = format!("{:?}", workspace);
    let mut tool = red_brush();
    tool.perform_action(&mut workspace, ActionOrigin::MouseDown(at(0.0, 0.0)));
    workspace.set_layer_mask(2, vec![255, 255]);
    tool.cancel(&mut workspace);
    assert_eq!(format!("{:?}", workspace), before);
    assert!(tool.path.is_empty());
    assert_eq!(tool.stroke_layer, None);
    // with no stroke, cancelling does nothing
    tool.cancel(&mut workspace);
    assert_eq!(format!("{:?}", workspace), before);
}

#[test]
fn pressing_again_replaces_a_stroke_that_was_never_ended() {
    let mut workspace = two_layers();
    workspace.selected_layer = Some(1);
    let mut tool = red_brush();
    tool.perform_action(&mut workspace, ActionOrigin::MouseDown(at(0.0, 0.0)));
    tool.perform_action(&mut workspace, ActionOrigin::MouseMove(at(1.0, 0.0)));
    let done = tool.perform_action(&mut workspace, ActionOrigin::MouseDown(at(0.5, 0.0)));
    assert_eq!(done, Mutation::Stamp { layer: 2 });
    assert_eq!(names(&workspace), ["a", "b", "Brush Layer"]);
    assert_eq!(tool.path, vec![at(0.5, 0.0)]);
}
