use gk4::light::{
    active_lights, first_directional, light_slots, marker_plan, shader_light_count, spot_slots,
    LightKind, LightSource, LightSwitches, MAX_LIGHTS,
};

#[test]
fn shader_codes_match_the_shaders() {
    assert_eq!(LightKind::Point.shader_code(), 0);
    assert_eq!(LightKind::Spot.shader_code(), 1);
    assert_eq!(LightKind::Directional.shader_code(), 2);
}

#[test]
fn at_most_eight_lights_reach_the_shader() {
    assert_eq!(shader_light_count(5), 5);
    assert_eq!(shader_light_count(8), 8);
    assert_eq!(shader_light_count(12), 8);
    assert_eq!(shader_light_count(0), 0);
}

#[test]
fn unused_light_slots_get_defaults() {
    let slots = light_slots(3);
    assert_eq!(slots.len(), MAX_LIGHTS);
    assert_eq!(&slots[0..4], &[Some(0), Some(1), Some(2), None]);
    assert!(light_slots(20).iter().enumerate().all(|(i, s)| *s == Some(i)));
}

#[test]
fn grid_takes_first_four_spotlights() {
    let kinds = vec![LightKind::Spot, LightKind::Point, LightKind::Spot, LightKind::Directional, LightKind::Spot, LightKind::Spot, LightKind::Spot];
    assert_eq!(spot_slots(&kinds), vec![0, 2, 4, 5]);
    assert_eq!(spot_slots(&vec![LightKind::Point, LightKind::Directional]), Vec::<usize>::new());
    // scene: point, fixed spot, sun, two headlights
    assert_eq!(spot_slots(&vec![LightKind::Point, LightKind::Spot, LightKind::Directional, LightKind::Spot, LightKind::Spot]), vec![1, 3, 4]);
}

#[test]
fn markers_skip_directional_lights() {
    let plan = marker_plan(&vec![LightKind::Point, LightKind::Directional, LightKind::Spot, LightKind::Spot]);
    let got: Vec<(usize, bool)> = plan.iter().map(|m| (m.light, m.cone)).collect();
    assert_eq!(got, vec![(0, false), (2, true), (3, true)]);
}

#[test]
fn sun_is_first_directional_light() {
    assert_eq!(first_directional(&vec![LightKind::Point, LightKind::Spot, LightKind::Directional, LightKind::Directional]), Some(2));
    assert_eq!(first_directional(&vec![LightKind::Point, LightKind::Spot]), None);
}

#[test]
fn switched_off_lights_are_left_out() {
    let all = LightSwitches { point: true, spot: true, sun: true, headlights: true };
    assert_eq!(
        active_lights(all, 2),
        vec![
            LightSource::Scene(0),
            LightSource::Scene(1),
            LightSource::Scene(2),
            LightSource::Headlight(0),
            LightSource::Headlight(1)
        ]
    );
    let some = LightSwitches { point: false, spot: true, sun: false, headlights: false };
    assert_eq!(active_lights(some, 2), vec![LightSource::Scene(1)]);
}
