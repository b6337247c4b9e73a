//! Parallel, context-free string rewriting: the grammar engine of the fractal
//! generator.
use vstd::prelude::*;

verus! {

broadcast use vstd::string::group_string_axioms;

/// What a list of `(symbol, replacement)` pairs means as a rule table: a later
/// pair for the same symbol overrides an earlier one.
pub open spec fn pairs_map(pairs: Seq<(char, String)>) -> Map<char, Seq<char>>
    decreases pairs.len(),
{
    if pairs.len() == 0 {
        Map::empty()
    } else {
        pairs_map(pairs.drop_last()).insert(pairs.last().0, pairs.last().1@)
    }
}

/// What one symbol becomes in one round: its replacement if a rule exists,
/// otherwise the symbol itself.
pub open spec fn rewrite_symbol(rules: Map<char, Seq<char>>, c: char) -> Seq<char> {
    if rules.contains_key(c) {
        rules[c]
    } else {
        seq![c]
    }
}

/// One round of rewriting: every symbol is replaced against the string as it
/// was at the start of the round.
pub open spec fn rewrite(rules: Map<char, Seq<char>>, s: Seq<char>) -> Seq<char>
    decreases s.len(),
{
    if s.len() == 0 {
        Seq::empty()
    } else {
        rewrite(rules, s.drop_last()) + rewrite_symbol(rules, s.last())
    }
}

/// The string after `n` rounds of rewriting, starting from the start string.
pub open spec fn expansion(start: Seq<char>, rules: Map<char, Seq<char>>, n: nat) -> Seq<char>
    decreases n,
{
    if n == 0 {
        start
    } else {
        rewrite(rules, expansion(start, rules, (n - 1) as nat))
    }
}

/// Relies on `String::push`: appends one character at the end.
#[verifier::external_body]
fn push_symbol(s: &mut String, c: char)
    ensures
        final(s)@ == old(s)@.push(c),
{
    s.push(c);
}

/// A table of production rules, from a symbol to its replacement string.
/// Symbols without a rule are copied unchanged.
pub struct ProductionRules {
    pairs: Vec<(char, String)>,
}

impl View for ProductionRules {
    type V = Map<char, Seq<char>>;

    closed spec fn view(&self) -> Map<char, Seq<char>> {
        pairs_map(self.pairs@)
    }
}

/// Dropping trailing pairs that do not name `c` leaves what the table says of
/// `c` unchanged.
proof fn lemma_pairs_map_skip(pairs: Seq<(char, String)>, i: int, c: char)
    requires
        0 <= i <= pairs.len(),
        forall|k: int| i <= k < pairs.len() ==> pairs[k].0 != c,
    ensures
        pairs_map(pairs).contains_key(c) == pairs_map(pairs.subrange(0, i)).contains_key(c),
        pairs_map(pairs).contains_key(c) ==> pairs_map(pairs)[c] == pairs_map(
            pairs.subrange(0, i),
        )[c],
    decreases pairs.len(),
{
    if pairs.len() == i {
        assert(pairs.subrange(0, i) =~= pairs);
    } else {
        let shorter = pairs.drop_last();
        assert(shorter.subrange(0, i) =~= pairs.subrange(0, i));
        lemma_pairs_map_skip(shorter, i, c);
    }
}

impl ProductionRules {
    /// An empty table: every symbol maps to itself.
    pub fn new() -> (r: ProductionRules)
        ensures
            r@ == Map::<char, Seq<char>>::empty(),
    {
        ProductionRules { pairs: Vec::new() }
    }

    /// Sets the replacement of `symbol`, overriding an earlier one.
    pub fn insert(&mut self, symbol: char, replacement: String)
        ensures
            final(self)@ == old(self)@.insert(symbol, replacement@),
    {
        self.pairs.push((symbol, replacement));
        assert(self.pairs@.drop_last() =~= old(self).pairs@);
    }

    /// The table made of the given pairs, in order: a later pair for the same
    /// symbol overrides an earlier one.
    pub fn from_pairs(pairs: &Vec<(char, String)>) -> (r: ProductionRules)
        ensures
            r@ == pairs_map(pairs@),
    {
        let mut table = ProductionRules::new();
        let mut i: usize = 0;
        while i < pairs.len()
            invariant
                i <= pairs.len(),
                table@ == pairs_map(pairs@.subrange(0, i as int)),
            decreases pairs.len() - i,
        {
            let symbol = pairs[i].0;
            let replacement = pairs[i].1.clone();
            table.insert(symbol, replacement);
            assert(pairs@.subrange(0, i + 1).drop_last() =~= pairs@.subrange(0, i as int));
            i = i + 1;
        }
        assert(pairs@.subrange(0, i as int) =~= pairs@);
        table
    }

    /// The replacement of `symbol`, if the table has a rule for it.
    pub fn replacement(&self, symbol: char) -> (r: Option<&String>)
        ensures
            r is Some <==> self@.contains_key(symbol),
            r is Some ==> r->0@ == self@[symbol],
    {
        let mut i: usize = self.pairs.len();
        while i > 0
            invariant
                i <= self.pairs.len(),
                forall|k: int| i <= k < self.pairs.len() ==> self.pairs@[k].0 != symbol,
            decreases i,
        {
            if self.pairs[i - 1].0 == symbol {
                proof {
                    lemma_pairs_map_skip(self.pairs@, i as int, symbol);
                    assert(self.pairs@.subrange(0, i as int).drop_last() =~= self.pairs@.subrange(
                        0,
                        i - 1,
                    ));
                }
                return Some(&self.pairs[i - 1].1);
            }
            i = i - 1;
        }
        proof {
            lemma_pairs_map_skip(self.pairs@, 0, symbol);
        }
        None
    }
}

/// An L-system: a start string and the rules that rewrite it, round after round.
pub struct LSystem {
    start: String,
    production_rules: ProductionRules,
}

impl LSystem {
    /// The start string of the system.
    pub closed spec fn start_string(&self) -> Seq<char> {
        self.start@
    }

    /// The rule table of the system.
    pub closed spec fn rules(&self) -> Map<char, Seq<char>> {
        self.production_rules@
    }

    pub fn new(start: &str, production_rules: ProductionRules) -> (r: LSystem)
        ensures
            r.start_string() == start@,
            r.rules() == production_rules@,
    {
        LSystem { start: start.to_string(), production_rules }
    }

    /// The string after `n_iterations` rounds of rewriting.
    pub fn generate(&self, n_iterations: u32) -> (r: String)
        ensures
            r@ == expansion(self.start_string(), self.rules(), n_iterations as nat),
    {
        let mut s = self.start.clone();
        let mut round: u32 = 0;
        while round < n_iterations
            invariant
                round <= n_iterations,
                s@ == expansion(self.start_string(), self.rules(), round as nat),
            decreases n_iterations - round,
        {
            s = self.apply_rules(&s);
            round = round + 1;
        }
        s
    }

    /// One round of rewriting of `input`.
    pub fn apply_rules(&self, input: &str) -> (r: String)
        ensures
            r@ == rewrite(self.rules(), input@),
    {
        let mut out = String::new();
        for symbol in it: input.chars()
            invariant
                it.seq() == input@,
                out@ == rewrite(self.rules(), input@.take(it.index() as int)),
        {
            assert(input@.take(it.index() + 1).drop_last() =~= input@.take(it.index() as int));
            match self.production_rules.replacement(symbol) {
                Some(replacement) => out.append(replacement.as_str()),
                None => push_symbol(&mut out, symbol),
            }
        }
        assert(input@.take(input@.len() as int) =~= input@);
        out
    }
}

/// Expands `start` by `n_iterations` rounds of the given rules.
pub fn generate_l_system(start: &str, production_rules: ProductionRules, n_iterations: u32) -> (r:
    String)
    ensures
        r@ == expansion(start@, production_rules@, n_iterations as nat),
{
    let l_system = LSystem::new(start, production_rules);
    l_system.generate(n_iterations)
}

/// Without rules, one round of rewriting leaves a string as it is.
pub proof fn lemma_rewrite_without_rules(s: Seq<char>)
    ensures
        rewrite(Map::empty(), s) == s,
    decreases s.len(),
{
    if s.len() > 0 {
        lemma_rewrite_without_rules(s.drop_last());
        assert(s.drop_last().push(s.last()) =~= s);
    }
}

/// Without rules, any number of rounds gives back the start string.
pub proof fn lemma_no_rules_no_change(start: Seq<char>, n: nat)
    ensures
        expansion(start, Map::empty(), n) == start,
    decreases n,
{
    if n > 0 {
        lemma_no_rules_no_change(start, (n - 1) as nat);
        lemma_rewrite_without_rules(start);
    }
}

/// Zero rounds give back the start string, whatever the rules.
pub proof fn lemma_zero_rounds(start: Seq<char>, rules: Map<char, Seq<char>>)
    ensures
        expansion(start, rules, 0) == start,
{
}

/// Rewriting is context free: the two halves of a string are rewritten
/// independently of each other.
pub proof fn lemma_rewrite_concat(rules: Map<char, Seq<char>>, a: Seq<char>, b: Seq<char>)
    ensures
        rewrite(rules, a + b) == rewrite(rules, a) + rewrite(rules, b),
    decreases b.len(),
{
    if b.len() == 0 {
        assert(a + b =~= a);
        assert(rewrite(rules, a) + rewrite(rules, b) =~= rewrite(rules, a));
    } else {
        lemma_rewrite_concat(rules, a, b.drop_last());
        assert((a + b).drop_last() =~= a + b.drop_last());
        assert((a + b).last() == b.last());
        assert(rewrite(rules, a) + rewrite(rules, b) =~= rewrite(rules, a) + rewrite(
            rules,
            b.drop_last(),
        ) + rewrite_symbol(rules, b.last()));
    }
}

/// Rounds compose: `n` rounds applied to the result of `m` rounds are `m + n`
/// rounds from the start string.
pub proof fn lemma_rounds_compose(start: Seq<char>, rules: Map<char, Seq<char>>, m: nat, n: nat)
    ensures
        expansion(expansion(start, rules, m), rules, n) == expansion(start, rules, m + n),
    decreases n,
{
    if n > 0 {
        lemma_rounds_compose(start, rules, m, (n - 1) as nat);
        assert((m + n - 1) as nat == (m + (n - 1)) as nat);
    }
}

} // verus!
