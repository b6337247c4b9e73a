//! The turtle: reads a generated string as drawing commands and resolves its
//! branches.
//!
//! A turtle state is described exactly by the moves (draws and turns) on the
//! way to it from the initial state: position and heading are a function of
//! that path alone. The interpreter here resolves every `[` and `]` and hands
//! back a plan in which each move names the state it starts from; the
//! geometry of each state is then one floating-point step away from the state
//! it came from.
use vstd::prelude::*;

verus! {

broadcast use vstd::string::group_string_axioms;

/// A command of the turtle alphabet.
#[derive(Debug, Clone, Copy, PartialEq, Eq, Structural)]
pub enum TurtleCommand {
    /// `F`: emit a segment at the current state, then advance one unit.
    MoveForward,
    /// `+`: turn by the angle around the first axis.
    RotateLeft,
    /// `-`: turn back by the angle around the first axis.
    RotateRight,
    /// `^`: pitch by the angle around the second axis.
    PitchUp,
    /// `&`: pitch back by the angle around the second axis.
    PitchDown,
    /// `\`: roll by the angle around the third axis.
    RollLeft,
    /// `/`: roll back by the angle around the third axis.
    RollRight,
    /// `[`: save the current state.
    PushState,
    /// `]`: restore the last saved state, if any.
    PopState,
}

impl TurtleCommand {
    /// The command that a symbol stands for; other symbols stand for none.
    pub open spec fn spec_from_symbol(c: char) -> Option<TurtleCommand> {
        if c == 'F' {
            Some(TurtleCommand::MoveForward)
        } else if c == '+' {
            Some(TurtleCommand::RotateLeft)
        } else if c == '-' {
            Some(TurtleCommand::RotateRight)
        } else if c == '&' {
            Some(TurtleCommand::PitchDown)
        } else if c == '^' {
            Some(TurtleCommand::PitchUp)
        } else if c == '\\' {
            Some(TurtleCommand::RollLeft)
        } else if c == '/' {
            Some(TurtleCommand::RollRight)
        } else if c == '[' {
            Some(TurtleCommand::PushState)
        } else if c == ']' {
            Some(TurtleCommand::PopState)
        } else {
            None
        }
    }

    pub fn from_symbol(c: char) -> (r: Option<TurtleCommand>)
        ensures
            r == TurtleCommand::spec_from_symbol(c),
    {
        match c {
            'F' => Some(TurtleCommand::MoveForward),
            '+' => Some(TurtleCommand::RotateLeft),
            '-' => Some(TurtleCommand::RotateRight),
            '&' => Some(TurtleCommand::PitchDown),
            '^' => Some(TurtleCommand::PitchUp),
            '\\' => Some(TurtleCommand::RollLeft),
            '/' => Some(TurtleCommand::RollRight),
            '[' => Some(TurtleCommand::PushState),
            ']' => Some(TurtleCommand::PopState),
            _ => None,
        }
    }

    /// A move changes the state: a draw or a turn. `[` and `]` are no moves.
    pub open spec fn is_move(self) -> bool {
        !(self is PushState || self is PopState)
    }
}

/// The commands that a string stands for, in order; symbols outside the
/// alphabet are skipped.
pub open spec fn commands_of(s: Seq<char>) -> Seq<TurtleCommand>
    decreases s.len(),
{
    if s.len() == 0 {
        Seq::empty()
    } else {
        match TurtleCommand::spec_from_symbol(s.last()) {
            Some(c) => commands_of(s.drop_last()).push(c),
            None => commands_of(s.drop_last()),
        }
    }
}

/// Reads a string as turtle commands, skipping symbols outside the alphabet.
pub fn parse_input(input: &str) -> (r: Vec<TurtleCommand>)
    ensures
        r@ == commands_of(input@),
{
    let mut commands: Vec<TurtleCommand> = Vec::new();
    for symbol in it: input.chars()
        invariant
            it.seq() == input@,
            commands@ == commands_of(input@.take(it.index() as int)),
    {
        assert(input@.take(it.index() + 1).drop_last() =~= input@.take(it.index() as int));
        match TurtleCommand::from_symbol(symbol) {
            Some(command) => commands.push(command),
            None => {},
        }
    }
    assert(input@.take(input@.len() as int) =~= input@);
    commands
}

/// The turtle's state as a path: the moves from the initial state to the
/// current one, and the saved paths of the open branches, innermost last.
pub type PathState = (Seq<TurtleCommand>, Seq<Seq<TurtleCommand>>);

/// The initial state: nothing moved, nothing saved.
pub open spec fn initial_state() -> PathState {
    (Seq::empty(), Seq::empty())
}

/// What one command does to the state. `]` with nothing saved changes nothing.
pub open spec fn step(st: PathState, c: TurtleCommand) -> PathState {
    match c {
        TurtleCommand::PushState => (st.0, st.1.push(st.0)),
        TurtleCommand::PopState => if st.1.len() > 0 {
            (st.1.last(), st.1.drop_last())
        } else {
            st
        },
        _ => (st.0.push(c), st.1),
    }
}

/// The state after running the commands from `st`.
pub open spec fn run_from(st: PathState, commands: Seq<TurtleCommand>) -> PathState
    decreases commands.len(),
{
    if commands.len() == 0 {
        st
    } else {
        step(run_from(st, commands.drop_last()), commands.last())
    }
}

/// The state after running the commands from the initial state.
pub open spec fn run(commands: Seq<TurtleCommand>) -> PathState {
    run_from(initial_state(), commands)
}

/// Each move of the commands, in order, with the path of the state it starts
/// from.
pub open spec fn moves_of(commands: Seq<TurtleCommand>) -> Seq<(Seq<TurtleCommand>, TurtleCommand)>
    decreases commands.len(),
{
    if commands.len() == 0 {
        Seq::empty()
    } else if commands.last().is_move() {
        moves_of(commands.drop_last()).push((run(commands.drop_last()).0, commands.last()))
    } else {
        moves_of(commands.drop_last())
    }
}

/// For each draw of the commands, in order, the path of the state at which
/// its segment is placed.
pub open spec fn draws_of(commands: Seq<TurtleCommand>) -> Seq<Seq<TurtleCommand>>
    decreases commands.len(),
{
    if commands.len() == 0 {
        Seq::empty()
    } else if commands.last() is MoveForward {
        draws_of(commands.drop_last()).push(run(commands.drop_last()).0)
    } else {
        draws_of(commands.drop_last())
    }
}

/// One move of a plan: the state it starts from (`None` for the initial
/// state, `Some(k)` for the state that step `k` ends in) and the command.
#[derive(Debug, Clone, Copy, PartialEq, Eq)]
pub struct TurtleStep {
    pub start: Option<usize>,
    pub command: TurtleCommand,
}

/// Orders state references so that each step names an earlier one.
pub open spec fn rank(at: Option<usize>) -> nat {
    match at {
        None => 0,
        Some(k) => (k + 1) as nat,
    }
}

/// The path of the state that `at` refers to in a list of steps.
pub open spec fn path_to(steps: Seq<TurtleStep>, at: Option<usize>) -> Seq<TurtleCommand>
    decreases rank(at),
{
    match at {
        None => Seq::empty(),
        Some(k) => if k < steps.len() && rank(steps[k as int].start) <= k {
            path_to(steps, steps[k as int].start).push(steps[k as int].command)
        } else {
            Seq::empty()
        },
    }
}

/// Every step starts from the initial state or from an earlier step.
pub open spec fn links_backward(steps: Seq<TurtleStep>) -> bool {
    forall|k: int| 0 <= k < steps.len() ==> rank(#[trigger] steps[k].start) <= k
}

/// Appending a step leaves the paths of the states already there unchanged.
proof fn lemma_path_to_extend(steps: Seq<TurtleStep>, x: TurtleStep, at: Option<usize>)
    requires
        links_backward(steps),
        rank(at) <= steps.len(),
    ensures
        path_to(steps.push(x), at) == path_to(steps, at),
    decreases rank(at),
{
    match at {
        None => {},
        Some(k) => {
            assert(steps.push(x)[k as int] == steps[k as int]);
            lemma_path_to_extend(steps, x, steps[k as int].start);
        },
    }
}

/// The branches of a string resolved: every move with the state it starts
/// from, the start state of every draw, and where the turtle ends.
pub struct TurtlePlan {
    steps: Vec<TurtleStep>,
    draws: Vec<Option<usize>>,
    end: Option<usize>,
    open_branches: usize,
}

impl TurtlePlan {
    /// Every state reference names the initial state or an existing step, and
    /// steps link backward.
    pub closed spec fn wf(&self) -> bool {
        &&& links_backward(self.steps@)
        &&& rank(self.end) <= self.steps@.len()
        &&& forall|k: int|
            0 <= k < self.draws@.len() ==> rank(#[trigger] self.draws@[k]) <= self.steps@.len()
    }

    pub closed spec fn spec_steps(&self) -> Seq<TurtleStep> {
        self.steps@
    }

    pub closed spec fn spec_draws(&self) -> Seq<Option<usize>> {
        self.draws@
    }

    pub closed spec fn spec_end(&self) -> Option<usize> {
        self.end
    }

    pub closed spec fn spec_open_branches(&self) -> nat {
        self.open_branches as nat
    }

    /// The plan describes running `commands` from the initial state: its
    /// steps are the moves in order, each from the state it starts from, its
    /// draws the states where segments are placed, its end the final state.
    pub open spec fn describes(&self, commands: Seq<TurtleCommand>) -> bool {
        &&& self.wf()
        &&& self.spec_steps().len() == moves_of(commands).len()
        &&& forall|k: int|
            0 <= k < self.spec_steps().len() ==> {
                &&& path_to(self.spec_steps(), (#[trigger] self.spec_steps()[k]).start)
                    == moves_of(commands)[k].0
                &&& self.spec_steps()[k].command == moves_of(commands)[k].1
            }
        &&& self.spec_draws().len() == draws_of(commands).len()
        &&& forall|k: int|
            0 <= k < self.spec_draws().len() ==> path_to(
                self.spec_steps(),
                #[trigger] self.spec_draws()[k],
            ) == draws_of(commands)[k]
        &&& path_to(self.spec_steps(), self.spec_end()) == run(commands).0
        &&& self.spec_open_branches() == run(commands).1.len()
    }

    /// Runs the commands from the initial state and records the plan.
    pub fn from_commands(commands: &Vec<TurtleCommand>) -> (r: TurtlePlan)
        ensures
            r.describes(commands@),
    {
        let mut steps: Vec<TurtleStep> = Vec::new();
        let mut draws: Vec<Option<usize>> = Vec::new();
        let mut current: Option<usize> = None;
        let mut saved: Vec<Option<usize>> = Vec::new();
        let mut i: usize = 0;
        while i < commands.len()
            invariant
                i <= commands.len(),
                links_backward(steps@),
                rank(current) <= steps@.len(),
                forall|j: int| 0 <= j < saved@.len() ==> rank(#[trigger] saved@[j]) <= steps@.len(),
                forall|j: int| 0 <= j < draws@.len() ==> rank(#[trigger] draws@[j]) <= steps@.len(),
                path_to(steps@, current) == run(commands@.take(i as int)).0,
                saved@.len() == run(commands@.take(i as int)).1.len(),
                forall|j: int|
                    0 <= j < saved@.len() ==> path_to(steps@, #[trigger] saved@[j]) == run(
                        commands@.take(i as int),
                    ).1[j],
                steps@.len() == moves_of(commands@.take(i as int)).len(),
                forall|k: int|
                    0 <= k < steps@.len() ==> {
                        &&& path_to(steps@, (#[trigger] steps@[k]).start) == moves_of(
                            commands@.take(i as int),
                        )[k].0
                        &&& steps@[k].command == moves_of(commands@.take(i as int))[k].1
                    },
                draws@.len() == draws_of(commands@.take(i as int)).len(),
                forall|k: int|
                    0 <= k < draws@.len() ==> path_to(steps@, #[trigger] draws@[k]) == draws_of(
                        commands@.take(i as int),
                    )[k],
            decreases commands.len() - i,
        {
            let command = commands[i];
            let ghost before = commands@.take(i as int);
            let ghost old_steps = steps@;
            assert(commands@.take(i + 1).drop_last() =~= before);
            assert(commands@.take(i + 1).last() == command);
            match command {
                TurtleCommand::PushState => {
                    saved.push(current);
                },
                TurtleCommand::PopState => {
                    match saved.pop() {
                        Some(state) => {
                            current = state;
                        },
                        None => {},
                    }
                },
                _ => {
                    if command == TurtleCommand::MoveForward {
                        draws.push(current);
                    }
                    let new_step = TurtleStep { start: current, command };
                    steps.push(new_step);
                    current = Some(steps.len() - 1);
                    proof {
                        assert forall|a: Option<usize>| rank(a) <= old_steps.len() implies path_to(
                            steps@,
                            a,
                        ) == path_to(old_steps, a) by {
                            lemma_path_to_extend(old_steps, new_step, a);
                        }
                        assert(steps@[old_steps.len() as int] == new_step);
                        assert forall|k: int| 0 <= k < steps@.len() implies rank(
                            #[trigger] steps@[k].start,
                        ) <= k by {
                            if k < old_steps.len() {
                                assert(steps@[k] == old_steps[k]);
                            }
                        }
                        assert forall|k: int| 0 <= k < old_steps.len() implies steps@[k]
                            == old_steps[k] by {}
                    }
                },
            }
            i = i + 1;
        }
        assert(commands@.take(i as int) =~= commands@);
        TurtlePlan { steps, draws, end: current, open_branches: saved.len() }
    }

    /// Reads the string as turtle commands and resolves its branches.
    pub fn from_symbols(lsystem: &str) -> (r: TurtlePlan)
        ensures
            r.describes(commands_of(lsystem@)),
            r.spec_draws().len() == occurrences(lsystem@, 'F'),
    {
        proof {
            lemma_one_segment_per_draw_symbol(lsystem@);
        }
        let commands = parse_input(lsystem);
        TurtlePlan::from_commands(&commands)
    }

    /// The path of the state that `at` refers to: the moves that lead to it
    /// from the initial state.
    pub fn path(&self, at: Option<usize>) -> (r: Vec<TurtleCommand>)
        requires
            self.wf(),
            rank(at) <= self.spec_steps().len(),
        ensures
            r@ == path_to(self.spec_steps(), at),
    {
        let ghost whole = path_to(self.steps@, at);
        let mut backwards: Vec<TurtleCommand> = Vec::new();
        let mut cursor = at;
        while cursor.is_some()
            invariant
                self.wf(),
                whole == path_to(self.steps@, at),
                rank(cursor) <= self.steps@.len(),
                backwards@.len() <= whole.len(),
                path_to(self.steps@, cursor) == whole.take(whole.len() - backwards@.len()),
                forall|k: int|
                    0 <= k < backwards@.len() ==> #[trigger] backwards@[k] == whole[whole.len() - 1
                        - k],
            decreases rank(cursor),
        {
            let k = cursor.unwrap();
            let step = self.steps[k];
            proof {
                assert(rank(self.steps@[k as int].start) <= k);
                assert(path_to(self.steps@, cursor) == path_to(self.steps@, step.start).push(
                    step.command,
                ));
                let prefix = whole.take(whole.len() - backwards@.len());
                assert(prefix.drop_last() =~= whole.take(whole.len() - backwards@.len() - 1));
                assert(prefix.last() == whole[whole.len() - 1 - backwards@.len()]);
            }
            backwards.push(step.command);
            cursor = step.start;
        }
        let mut forwards: Vec<TurtleCommand> = Vec::new();
        while backwards.len() > 0
            invariant
                backwards@.len() + forwards@.len() == whole.len(),
                forwards@ == whole.take(forwards@.len() as int),
                forall|k: int|
                    0 <= k < backwards@.len() ==> #[trigger] backwards@[k] == whole[whole.len() - 1
                        - k],
            decreases backwards@.len(),
        {
            let command = backwards.pop().unwrap();
            forwards.push(command);
            assert(forwards@ =~= whole.take(forwards@.len() as int));
        }
        forwards
    }

    /// The moves, in order, each with the state it starts from.
    pub fn steps(&self) -> (r: &Vec<TurtleStep>)
        ensures
            r@ == self.spec_steps(),
    {
        &self.steps
    }

    /// The start state of each draw, in order: one segment is placed at each.
    pub fn draws(&self) -> (r: &Vec<Option<usize>>)
        ensures
            r@ == self.spec_draws(),
    {
        &self.draws
    }

    /// The state the turtle ends in.
    pub fn end(&self) -> (r: Option<usize>)
        ensures
            r == self.spec_end(),
    {
        self.end
    }

    /// How many saved states were never restored.
    pub fn open_branches(&self) -> (r: usize)
        ensures
            r == self.spec_open_branches(),
    {
        self.open_branches
    }
}

/// How many times `c` occurs in `s`.
pub open spec fn occurrences(s: Seq<char>, c: char) -> nat
    decreases s.len(),
{
    if s.len() == 0 {
        0
    } else if s.last() == c {
        occurrences(s.drop_last(), c) + 1
    } else {
        occurrences(s.drop_last(), c)
    }
}

/// A string places exactly one segment per `F` it holds: brackets, turns and
/// symbols outside the alphabet place none.
pub proof fn lemma_one_segment_per_draw_symbol(s: Seq<char>)
    ensures
        draws_of(commands_of(s)).len() == occurrences(s, 'F'),
    decreases s.len(),
{
    if s.len() > 0 {
        lemma_one_segment_per_draw_symbol(s.drop_last());
        let rest = commands_of(s.drop_last());
        match TurtleCommand::spec_from_symbol(s.last()) {
            Some(c) => {
                assert(rest.push(c).drop_last() =~= rest);
            },
            None => {},
        }
    }
}

/// A `]` with no saved state changes nothing: the state, the moves and the
/// draws stay what they were.
pub proof fn lemma_unmatched_pop_is_noop(commands: Seq<TurtleCommand>)
    requires
        run(commands).1.len() == 0,
    ensures
        run(commands.push(TurtleCommand::PopState)) == run(commands),
        moves_of(commands.push(TurtleCommand::PopState)) == moves_of(commands),
        draws_of(commands.push(TurtleCommand::PopState)) == draws_of(commands),
{
    assert(commands.push(TurtleCommand::PopState).drop_last() =~= commands);
}

/// How many more `[` than `]` the commands hold.
pub open spec fn nesting(commands: Seq<TurtleCommand>) -> int
    decreases commands.len(),
{
    if commands.len() == 0 {
        0
    } else {
        nesting(commands.drop_last()) + match commands.last() {
            TurtleCommand::PushState => 1int,
            TurtleCommand::PopState => -1int,
            _ => 0int,
        }
    }
}

/// No prefix of the commands closes more branches than it opened.
pub open spec fn never_underflows(commands: Seq<TurtleCommand>) -> bool {
    forall|k: int| 0 <= k <= commands.len() ==> nesting(#[trigger] commands.take(k)) >= 0
}

/// Running commands one after the other is running their concatenation.
proof fn lemma_run_from_concat(st: PathState, x: Seq<TurtleCommand>, y: Seq<TurtleCommand>)
    ensures
        run_from(st, x + y) == run_from(run_from(st, x), y),
    decreases y.len(),
{
    if y.len() == 0 {
        assert(x + y =~= x);
    } else {
        lemma_run_from_concat(st, x, y.drop_last());
        assert((x + y).drop_last() =~= x + y.drop_last());
        assert((x + y).last() == y.last());
    }
}

/// Commands that never close more than they open only grow the stack of
/// saved states above where they found it, by their nesting.
proof fn lemma_saved_below_kept(st: PathState, commands: Seq<TurtleCommand>)
    requires
        never_underflows(commands),
    ensures
        run_from(st, commands).1.len() == st.1.len() + nesting(commands),
        run_from(st, commands).1.take(st.1.len() as int) == st.1,
    decreases commands.len(),
{
    let n = st.1.len() as int;
    if commands.len() == 0 {
        assert(st.1.take(n) =~= st.1);
    } else {
        let shorter = commands.drop_last();
        assert forall|k: int| 0 <= k <= shorter.len() implies nesting(
            #[trigger] shorter.take(k),
        ) >= 0 by {
            assert(shorter.take(k) =~= commands.take(k));
        }
        assert(commands.take(commands.len() as int) =~= commands);
        assert(commands.take(shorter.len() as int) =~= shorter);
        lemma_saved_below_kept(st, shorter);
        let saved = run_from(st, shorter).1;
        assert(nesting(commands) >= 0);
        match commands.last() {
            TurtleCommand::PushState => {
                assert(saved.push(run_from(st, shorter).0).take(n) =~= saved.take(n));
            },
            TurtleCommand::PopState => {
                assert(saved.drop_last().take(n) =~= saved.take(n));
            },
            _ => {},
        }
    }
}

/// A branch whose brackets match leaves the turtle as it found it: after
/// `[`, the branch and `]`, position, heading and saved states are those from
/// before the `[`.
pub proof fn lemma_branch_restores_state(before: Seq<TurtleCommand>, branch: Seq<TurtleCommand>)
    requires
        never_underflows(branch),
        nesting(branch) == 0,
    ensures
        run(before + seq![TurtleCommand::PushState] + branch + seq![TurtleCommand::PopState]) == run(
            before,
        ),
{
    let opened = before + seq![TurtleCommand::PushState];
    lemma_run_from_concat(initial_state(), before, seq![TurtleCommand::PushState]);
    lemma_run_from_concat(initial_state(), opened, branch);
    lemma_run_from_concat(initial_state(), opened + branch, seq![TurtleCommand::PopState]);
    let st = run(before);
    let pushed = run(opened);
    let push = seq![TurtleCommand::PushState];
    assert(push.drop_last() =~= Seq::<TurtleCommand>::empty());
    assert(run_from(st, push.drop_last()) == st);
    assert(run_from(st, push) == step(st, TurtleCommand::PushState));
    assert(pushed == (st.0, st.1.push(st.0)));
    lemma_saved_below_kept(pushed, branch);
    let after = run(opened + branch);
    assert(after.1 =~= pushed.1);
    let pop = seq![TurtleCommand::PopState];
    assert(pop.drop_last() =~= Seq::<TurtleCommand>::empty());
    assert(run_from(after, pop.drop_last()) == after);
    assert(run_from(after, pop) == step(after, TurtleCommand::PopState));
    assert(st.1.push(st.0).drop_last() =~= st.1);
}

} // verus!
