//! The settings from which a structure is generated, and the built-in presets.
use vstd::prelude::*;
use crate::lsystem::{expansion, generate_l_system, pairs_map, ProductionRules};

verus! {

broadcast use vstd::string::group_string_axioms;

/// The settings of one generated structure. Angle and height are kept in
/// tenths, so that presets and comparisons are exact.
#[derive(Debug, Clone)]
pub struct LSystemConfig {
    /// The string that rewriting starts from.
    pub start: String,
    /// The rules as `(symbol, replacement)` pairs; a later pair for the same
    /// symbol overrides an earlier one.
    pub production_rules: Vec<(char, String)>,
    /// Rounds of rewriting.
    pub n_iterations: u32,
    /// Turning angle of the turtle, in tenths of a degree.
    pub angle_tenths: u32,
    /// Height that the structure is scaled to, in tenths of a unit.
    pub fractal_height_tenths: u32,
}

impl LSystemConfig {
    /// The rule table that the pairs stand for.
    pub fn rules(&self) -> (r: ProductionRules)
        ensures
            r@ == pairs_map(self.production_rules@),
    {
        ProductionRules::from_pairs(&self.production_rules)
    }

    /// The string that the settings generate.
    pub fn generate(&self) -> (r: String)
        ensures
            r@ == expansion(self.start@, pairs_map(self.production_rules@), self.n_iterations as nat),
    {
        generate_l_system(self.start.as_str(), self.rules(), self.n_iterations)
    }
}

impl Default for LSystemConfig {
    fn default() -> (r: LSystemConfig)
        ensures
            r.describes(PresetSelection::Tree3D),
    {
        PresetSelection::Tree3D.to_config()
    }
}

/// A built-in set of settings, or the user's own.
#[derive(Debug, Clone, Copy, PartialEq, Eq, Structural)]
pub enum PresetSelection {
    Tree3D,
    Bush,
    Seaweed,
    Custom,
}

/// The replacement of `F` in a preset; `F` is its only rule.
pub open spec fn preset_replacement(p: PresetSelection) -> Seq<char> {
    match p {
        PresetSelection::Tree3D => "F[+F][&F][\\F]F[-F][^F][/F]F"@,
        PresetSelection::Bush => "FF[++F][-F][&F][^F]"@,
        PresetSelection::Seaweed => "F[+F]F[-F][F]"@,
        PresetSelection::Custom => "F"@,
    }
}

/// Rounds of rewriting of a preset.
pub open spec fn preset_iterations(p: PresetSelection) -> u32 {
    match p {
        PresetSelection::Tree3D => 3,
        PresetSelection::Bush => 4,
        PresetSelection::Seaweed => 4,
        PresetSelection::Custom => 1,
    }
}

/// Turning angle of a preset, in tenths of a degree.
pub open spec fn preset_angle_tenths(p: PresetSelection) -> u32 {
    match p {
        PresetSelection::Tree3D => 250,
        PresetSelection::Bush => 225,
        PresetSelection::Seaweed => 200,
        PresetSelection::Custom => 250,
    }
}

impl LSystemConfig {
    /// The settings are those of the preset: start `F`, the one rule for `F`,
    /// its rounds and angle, and a height of three units.
    pub open spec fn describes(&self, p: PresetSelection) -> bool {
        &&& self.start@ == "F"@
        &&& self.production_rules@.len() == 1
        &&& self.production_rules@[0].0 == 'F'
        &&& self.production_rules@[0].1@ == preset_replacement(p)
        &&& self.n_iterations == preset_iterations(p)
        &&& self.angle_tenths == preset_angle_tenths(p)
        &&& self.fractal_height_tenths == 30
    }
}

impl PresetSelection {
    /// The settings of the preset.
    pub fn to_config(self) -> (r: LSystemConfig)
        ensures
            r.describes(self),
    {
        let (replacement, n_iterations, angle_tenths): (&str, u32, u32) = match self {
            PresetSelection::Tree3D => ("F[+F][&F][\\F]F[-F][^F][/F]F", 3, 250),
            PresetSelection::Bush => ("FF[++F][-F][&F][^F]", 4, 225),
            PresetSelection::Seaweed => ("F[+F]F[-F][F]", 4, 200),
            PresetSelection::Custom => ("F", 1, 250),
        };
        let mut production_rules: Vec<(char, String)> = Vec::new();
        production_rules.push(('F', replacement.to_string()));
        LSystemConfig {
            start: "F".to_string(),
            production_rules,
            n_iterations,
            angle_tenths,
            fractal_height_tenths: 30,
        }
    }

    /// Whether choosing `self` after `previous` loads the preset's settings:
    /// only a change to a built-in preset does.
    pub fn replaces_config(self, previous: PresetSelection) -> (r: bool)
        ensures
            r == (self != previous && self != PresetSelection::Custom),
    {
        self != previous && self != PresetSelection::Custom
    }
}

} // verus!
