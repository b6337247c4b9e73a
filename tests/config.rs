use lsystem_fractals::common::{AppInteractionMode, ColorMode, ModelSelection, ShadingMode};
use lsystem_fractals::config::{LSystemConfig, PresetSelection};

#[test]
fn tree_preset_settings() {
    let config = PresetSelection::Tree3D.to_config();
    assert_eq!(config.start, "F");
    assert_eq!(config.production_rules, vec![('F', "F[+F][&F][\\F]F[-F][^F][/F]F".to_string())]);
    assert_eq!(config.n_iterations, 3);
    assert_eq!(config.angle_tenths, 250);
    assert_eq!(config.fractal_height_tenths, 30);
}

#[test]
fn bush_and_seaweed_presets() {
    let bush = PresetSelection::Bush.to_config();
    assert_eq!(bush.production_rules[0].1, "FF[++F][-F][&F][^F]");
    assert_eq!((bush.n_iterations, bush.angle_tenths), (4, 225));
    let seaweed = PresetSelection::Seaweed.to_config();
    assert_eq!(seaweed.production_rules[0].1, "F[+F]F[-F][F]");
    assert_eq!((seaweed.n_iterations, seaweed.angle_tenths), (4, 200));
}

#[test]
fn custom_preset_is_identity() {
    let config = PresetSelection::Custom.to_config();
    assert_eq!(config.generate(), "F");
}

#[test]
fn default_config_is_the_tree() {
    let config = LSystemConfig::default();
    assert_eq!(config.n_iterations, 3);
    assert_eq!(config.generate().chars().filter(|c| *c == 'F').count(), 9 * 9 * 9);
}

#[test]
fn config_generates_with_its_rules() {
    let config = LSystemConfig {
        start: "A".to_string(),
        production_rules: vec![('A', "AB".to_string()), ('B', "A".to_string())],
        n_iterations: 4,
        angle_tenths: 0,
        fractal_height_tenths: 10,
    };
    assert_eq!(config.generate(), "ABAABABA");
}

#[test]
fn preset_change_replaces_config() {
    assert!(PresetSelection::Bush.replaces_config(PresetSelection::Tree3D));
    assert!(!PresetSelection::Bush.replaces_config(PresetSelection::Bush));
    assert!(!PresetSelection::Custom.replaces_config(PresetSelection::Tree3D));
}

#[test]
fn shader_codes() {
    assert_eq!(i32::from(ShadingMode::Flat), 0);
    assert_eq!(i32::from(ShadingMode::Gouraud), 1);
    assert_eq!(i32::from(ShadingMode::Phong), 2);
    assert_eq!(i32::from(ColorMode::Material), 0);
    assert_eq!(i32::from(ColorMode::Interpolated), 1);
}

#[test]
fn interaction_mode_toggles() {
    let mode = AppInteractionMode::default();
    assert_eq!(mode, AppInteractionMode::CameraControl);
    assert_eq!(mode.toggled(), AppInteractionMode::GuiInteraction);
    assert_eq!(mode.toggled().toggled(), AppInteractionMode::CameraControl);
}

#[test]
fn default_model_is_cylinder() {
    assert_eq!(ModelSelection::default(), ModelSelection::Cylinder);
}
