use slopos_shell::display_arrange::{
    arrange_mode_from_env_value, normalize_arrangement, place_outputs, plan_display_apply,
    ArrangeMode, DisplayApplyStep, DisplayArrangement, DisplayOutput,
};

fn dual() -> DisplayArrangement {
    DisplayArrangement {
        mode: ArrangeMode::ExtendRight,
        outputs: vec![DisplayOutput::new("eDP-1", 1920, 1080).with_scale(100), {
            let mut o = DisplayOutput::new("HDMI-1", 2560, 1440);
            o.is_primary = false;
            o
        }],
    }
}

#[test]
fn normalize_picks_primary() {
    let arr = normalize_arrangement(dual()).unwrap();
    assert_eq!(arr.outputs.iter().filter(|o| o.is_primary).count(), 1);
    assert!(arr.outputs[0].is_primary);
}

#[test]
fn extend_right_places_side_by_side() {
    let mut arr = dual();
    arr.outputs[0].is_primary = true;
    let plan = plan_display_apply(&arr).unwrap();
    assert_eq!(plan.placed.len(), 2);
    assert_eq!(plan.placed[0].x, 0);
    assert_eq!(plan.placed[1].x, 1920);
    assert!(plan.logical_width >= 1920 + 2560);
    assert!(plan
        .steps
        .iter()
        .any(|s| matches!(s, DisplayApplyStep::SetPrimary { .. })));
}

#[test]
fn mirror_all_at_origin() {
    let mut arr = dual();
    arr.mode = ArrangeMode::Mirror;
    arr.outputs[0].is_primary = true;
    let placed = place_outputs(&arr).unwrap();
    assert!(placed.iter().all(|p| p.x == 0 && p.y == 0));
}

#[test]
fn primary_only_disables_secondary() {
    let mut arr = dual();
    arr.mode = ArrangeMode::PrimaryOnly;
    arr.outputs[0].is_primary = true;
    let plan = plan_display_apply(&arr).unwrap();
    assert_eq!(plan.placed.len(), 1);
    assert!(plan
        .steps
        .iter()
        .any(|s| matches!(s, DisplayApplyStep::Disable { name } if name == "HDMI-1")));
}

#[test]
fn scale_affects_logical_extent() {
    let mut o = DisplayOutput::new("eDP-1", 2000, 1000).with_scale(200);
    o.is_primary = true;
    let arr = DisplayArrangement {
        mode: ArrangeMode::ExtendRight,
        outputs: vec![o],
    };
    let plan = plan_display_apply(&arr).unwrap();
    assert_eq!(plan.logical_width, 1000);
    assert_eq!(plan.logical_height, 500);
}

#[test]
fn parse_modes() {
    assert_eq!(ArrangeMode::parse("mirror"), Some(ArrangeMode::Mirror));
    assert_eq!(
        arrange_mode_from_env_value(Some("stack")),
        ArrangeMode::ExtendDown
    );
}


#[test]
fn apply_display_plan_env_sets_layout() {
    let mut arr = dual();
    arr.outputs[0].is_primary = true;
    let plan = plan_display_apply(&arr).unwrap();
    let applied = plan.env_assignments();
    let layout = applied
        .iter()
        .find(|(k, _)| k == "SLOPOS_OUTPUTS_LAYOUT")
        .map(|(_, v)| v.as_str())
        .expect("expected SLOPOS_OUTPUTS_LAYOUT in applied pairs");
    assert!(layout.contains("eDP-1"), "layout value={layout}");
    assert!(layout.contains("HDMI-1"), "layout value={layout}");
    assert_eq!(Some(layout), plan.layout_value());
    assert_eq!(applied.len(), 1);
}
