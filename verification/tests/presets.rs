use elfentier_core::agent::list_presets;
use elfentier_core::collider::ColliderMeshKind;
use elfentier_core::environment::{ViewportEnvironment, ViewportEnvironmentPreset};

#[test]
fn lists_three_presets_in_order() {
    let presets = list_presets();
    let ids: Vec<&str> = presets.iter().map(|p| p.id.as_str()).collect();
    assert_eq!(ids, vec!["shop_street", "grid_block", "smoke_puff"]);
    assert_eq!(presets[0].name, "Shop Street");
    assert_eq!(presets[2].name, "Smoke Puff");
}

#[test]
fn default_environment_is_studio_soft() {
    let env = ViewportEnvironment::default();
    assert_eq!(env.preset, ViewportEnvironmentPreset::StudioSoft);
    assert!(env.enabled);
}

#[test]
fn disabled_environment_maps_to_flat_gray() {
    let env = ViewportEnvironment {
        enabled: false,
        ..Default::default()
    };
    assert_eq!(env.effective_preset(), ViewportEnvironmentPreset::FlatGray);
}

#[test]
fn environment_defaults_carry_float_settings() {
    let env = ViewportEnvironment::default();
    assert_eq!(f32::from_bits(env.intensity), 1.0);
    assert_eq!(f32::from_bits(env.diffuse_blur), 0.35);
    let flat = ViewportEnvironment::legacy_flat();
    assert_eq!(flat.effective_preset(), ViewportEnvironmentPreset::FlatGray);
    assert_eq!(ViewportEnvironmentPreset::default(), ViewportEnvironmentPreset::StudioSoft);
}

#[test]
fn enabled_environment_keeps_its_preset() {
    let env = ViewportEnvironment {
        preset: ViewportEnvironmentPreset::StudioContrast,
        ..Default::default()
    };
    assert_eq!(env.effective_preset(), ViewportEnvironmentPreset::StudioContrast);
}

#[test]
fn default_collider_is_a_box() {
    assert_eq!(ColliderMeshKind::default(), ColliderMeshKind::Box);
}
