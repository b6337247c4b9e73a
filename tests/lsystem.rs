use lsystem_fractals::lsystem::{generate_l_system, LSystem, ProductionRules};

#[test]
fn test_generation() {
    // From wikipedia https://en.wikipedia.org/wiki/L-system
    let start = "A";
    let mut production_rules = ProductionRules::new();
    production_rules.insert('A', "AB".to_string());
    production_rules.insert('B', "A".to_string());

    let lsystem = LSystem::new(start, production_rules);

    assert_eq!(lsystem.generate(0), "A");
    assert_eq!(lsystem.generate(1), "AB");
    assert_eq!(lsystem.generate(2), "ABA");
    assert_eq!(lsystem.generate(3), "ABAAB");
    assert_eq!(lsystem.generate(4), "ABAABABA");
}

#[test]
fn no_rules_leave_the_start_string() {
    for n in 0..5 {
        assert_eq!(generate_l_system("F[+F]X", ProductionRules::new(), n), "F[+F]X");
    }
}

#[test]
fn zero_rounds_give_the_start_string() {
    let mut rules = ProductionRules::new();
    rules.insert('F', "FF".to_string());
    assert_eq!(generate_l_system("F+F", rules, 0), "F+F");
}

#[test]
fn symbols_without_rule_are_copied() {
    let mut rules = ProductionRules::new();
    rules.insert('F', "F[+F]".to_string());
    let lsystem = LSystem::new("XF-", rules);
    assert_eq!(lsystem.apply_rules("XF-"), "XF[+F]-");
    assert_eq!(lsystem.apply_rules(""), "");
}

#[test]
fn rewriting_is_parallel() {
    // Both symbols are rewritten against the string of the previous round.
    let mut rules = ProductionRules::new();
    rules.insert('A', "B".to_string());
    rules.insert('B', "A".to_string());
    assert_eq!(generate_l_system("AB", rules, 1), "BA");
}

#[test]
fn later_rule_overrides_earlier() {
    let pairs = vec![('F', "G".to_string()), ('X', "Y".to_string()), ('F', "FF".to_string())];
    let rules = ProductionRules::from_pairs(&pairs);
    assert_eq!(rules.replacement('F').map(|s| s.as_str()), Some("FF"));
    assert_eq!(rules.replacement('X').map(|s| s.as_str()), Some("Y"));
    assert_eq!(rules.replacement('Z'), None);
    assert_eq!(generate_l_system("FX", rules, 2), "FFFFY");
}

#[test]
fn insert_replaces_a_rule() {
    let mut rules = ProductionRules::new();
    rules.insert('F', "A".to_string());
    rules.insert('F', "B".to_string());
    assert_eq!(generate_l_system("F", rules, 1), "B");
}

#[test]
fn rule_can_erase_a_symbol() {
    let mut rules = ProductionRules::new();
    rules.insert('X', String::new());
    assert_eq!(generate_l_system("XFX", rules, 3), "F");
}

#[test]
fn growth_is_geometric() {
    let mut rules = ProductionRules::new();
    rules.insert('F', "FF".to_string());
    let s = generate_l_system("F", rules, 10);
    assert_eq!(s.len(), 1024);
    assert!(s.chars().all(|c| c == 'F'));
}

#[test]
fn dummy_test() {
    assert_eq!(2 + 2, 4);
}
