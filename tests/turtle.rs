use lsystem_fractals::turtle::{parse_input, TurtleCommand, TurtlePlan, TurtleStep};

use TurtleCommand::{MoveForward, PitchDown, PitchUp, PopState, PushState, RollLeft, RollRight, RotateLeft, RotateRight};

#[test]
fn parse_maps_every_symbol() {
    assert_eq!(
        parse_input("F+-&^\\/[]"),
        vec![MoveForward, RotateLeft, RotateRight, PitchDown, PitchUp, RollLeft, RollRight, PushState, PopState]
    );
}

#[test]
fn parse_skips_unknown_symbols() {
    assert_eq!(parse_input("AFxB+ \u{e9}"), vec![MoveForward, RotateLeft]);
    assert_eq!(parse_input(""), Vec::<TurtleCommand>::new());
}

#[test]
fn from_symbol_decodes() {
    assert_eq!(TurtleCommand::from_symbol('['), Some(PushState));
    assert_eq!(TurtleCommand::from_symbol('G'), None);
}

#[test]
fn single_draw_is_placed_at_the_origin() {
    let plan = TurtlePlan::from_symbols("F");
    assert_eq!(plan.draws(), &vec![None]);
    assert_eq!(plan.steps(), &vec![TurtleStep { start: None, command: MoveForward }]);
    // The turtle moved one unit after placing the segment.
    assert_eq!(plan.path(plan.end()), vec![MoveForward]);
    assert_eq!(plan.open_branches(), 0);
}

#[test]
fn bracketed_branch_is_discarded() {
    let plan = TurtlePlan::from_symbols("F[+F]F");
    assert_eq!(plan.draws().len(), 3);
    assert_eq!(plan.open_branches(), 0);
    assert_eq!(plan.path(plan.end()), vec![MoveForward, MoveForward]);
    let starts: Vec<Vec<TurtleCommand>> = plan.draws().iter().map(|d| plan.path(*d)).collect();
    assert_eq!(starts, vec![vec![], vec![MoveForward, RotateLeft], vec![MoveForward]]);
}

#[test]
fn pop_without_push_is_ignored() {
    let plan = TurtlePlan::from_symbols("]F");
    assert_eq!(plan.draws(), &vec![None]);
    assert_eq!(plan.path(plan.end()), vec![MoveForward]);
    assert_eq!(plan.open_branches(), 0);
}

#[test]
fn unclosed_branches_are_counted() {
    let plan = TurtlePlan::from_symbols("F[[+F");
    assert_eq!(plan.open_branches(), 2);
    assert_eq!(plan.path(plan.end()), vec![MoveForward, RotateLeft, MoveForward]);
}

#[test]
fn one_segment_per_draw_symbol() {
    let s = "FF[++F][-F][&F][^F]xyzF";
    let plan = TurtlePlan::from_symbols(s);
    assert_eq!(plan.draws().len(), s.chars().filter(|c| *c == 'F').count());
    assert_eq!(plan.steps().len(), 12);
}

#[test]
fn steps_link_to_earlier_states() {
    let plan = TurtlePlan::from_symbols("F[+F[-F]]^F");
    let steps = plan.steps();
    for (k, step) in steps.iter().enumerate() {
        if let Some(j) = step.start {
            assert!(j < k);
        }
    }
    // The last draw starts after the pitch, which starts where the first draw ended.
    assert_eq!(plan.path(*plan.draws().last().unwrap()), vec![MoveForward, PitchUp]);
}
