//! The automaton engine: cell bits, the rule table built from an eight-bit
//! rule number, and the stepping of a circular row of cells.

use vstd::prelude::*;

verus! {

/// A single cell state: alive or dead.
#[derive(Clone, Copy, PartialEq, Eq, Structural)]
pub enum Bit {
    One,
    Zero,
}

/// The bit a cell value stands for: any value above zero counts as alive.
pub open spec fn bit_of(v: u8) -> Bit {
    if v > 0 {
        Bit::One
    } else {
        Bit::Zero
    }
}

/// A whole row of cell values, each read as a bit.
pub open spec fn bits_of(row: Seq<u8>) -> Seq<Bit> {
    row.map_values(|v: u8| bit_of(v))
}

/// The numeric value of a bit: one for alive, zero for dead.
pub open spec fn bit_value(b: Bit) -> u8 {
    match b {
        Bit::One => 1u8,
        Bit::Zero => 0u8,
    }
}

/// A row of bits back as 0/1 values.
pub open spec fn row_of(s: Seq<Bit>) -> Seq<u8> {
    s.map_values(|b: Bit| bit_value(b))
}

impl Bit {
    /// Reads a cell value: anything above zero is alive.
    pub fn from_u8(v: u8) -> (r: Bit)
        ensures
            r == bit_of(v),
    {
        if v > 0 {
            Bit::One
        } else {
            Bit::Zero
        }
    }

    /// The numeric value of the bit.
    pub fn to_u8(self) -> (r: u8)
        ensures
            r == bit_value(self),
    {
        match self {
            Bit::One => 1u8,
            Bit::Zero => 0u8,
        }
    }
}

/// Bit `p` of `rule`'s binary expansion, read as a cell bit.
pub open spec fn rule_bit(rule: int, p: int) -> Bit
    decreases p,
{
    if p <= 0 {
        if rule % 2 == 1 {
            Bit::One
        } else {
            Bit::Zero
        }
    } else {
        rule_bit(rule / 2, p - 1)
    }
}

/// The table index of a three-cell neighborhood, the left neighbor being the
/// most significant bit.
pub open spec fn pattern_index(b2: Bit, b1: Bit, b0: Bit) -> int {
    4 * bit_value(b2) + 2 * bit_value(b1) + bit_value(b0)
}

/// The rule table of an elementary automaton: the next state of a cell for
/// each of the eight three-cell neighborhoods, a neighborhood read as a
/// three-bit table index.
pub struct RuleTable {
    entries: Vec<Bit>,
}

impl RuleTable {
    /// The table as a sequence, indexed by neighborhood pattern.
    pub closed spec fn table(self) -> Seq<Bit> {
        self.entries@
    }

    /// A well-formed table holds one entry per possible pattern.
    pub closed spec fn wf(self) -> bool {
        self.entries@.len() == 8
    }

    /// Builds the table for `rule`: the entry for pattern `p` is bit `p` of
    /// `rule`'s binary expansion.
    pub fn new(rule: u8) -> (r: RuleTable)
        ensures
            r.wf(),
            forall|p: int| 0 <= p < 8 ==> r.table()[p] == rule_bit(rule as int, p),
    {
        let mut entries: Vec<Bit> = Vec::new();
        let mut rest: u8 = rule;
        for i in 0..8usize
            invariant
                entries@.len() == i,
                forall|p: int| 0 <= p < i ==> entries@[p] == rule_bit(rule as int, p),
                forall|p: int| i <= p < 8 ==> rule_bit(rest as int, p - i) == rule_bit(rule as int, p),
        {
            entries.push(Bit::from_u8(rest % 2));
            rest = rest / 2;
        }
        RuleTable { entries }
    }

    /// Looks up the next state of a cell whose neighborhood is
    /// `(left, center, right) = (b2, b1, b0)`.
    pub fn get(&self, b2: Bit, b1: Bit, b0: Bit) -> (r: Bit)
        requires
            self.wf(),
        ensures
            r == self.table()[pattern_index(b2, b1, b0)],
    {
        let idx: usize = 4 * (b2.to_u8() as usize) + 2 * (b1.to_u8() as usize) + (b0.to_u8()
            as usize);
        self.entries[idx]
    }
}

/// One generation of the automaton: the cell at `i` becomes the table entry
/// for its neighborhood, with circular boundaries, so the two ends of the row
/// are each other's neighbors.
pub open spec fn step_spec(s: Seq<Bit>, t: Seq<Bit>) -> Seq<Bit> {
    Seq::new(
        s.len(),
        |i: int|
            t[pattern_index(
                s[if i == 0 { s.len() as int - 1 } else { i - 1 }],
                s[i],
                s[if i == s.len() as int - 1 { 0int } else { i + 1 }],
            )],
    )
}

/// The state reached after `k` generations from `s` under table `t`.
pub open spec fn states_at(s: Seq<Bit>, t: Seq<Bit>, k: int) -> Seq<Bit>
    decreases k,
{
    if k <= 0 {
        s
    } else {
        step_spec(states_at(s, t, k - 1), t)
    }
}

/// The main simulation structure: a row of cells and the rule table that
/// advances it.
pub struct Ca {
    state: Vec<Bit>,
    rules: RuleTable,
}

impl Ca {
    /// The current generation.
    pub closed spec fn state_seq(self) -> Seq<Bit> {
        self.state@
    }

    /// The automaton's rule table.
    pub closed spec fn table(self) -> Seq<Bit> {
        self.rules.table()
    }

    /// A well-formed automaton carries a complete rule table.
    pub closed spec fn wf(self) -> bool {
        self.rules.wf()
    }

    /// Builds an automaton: each seed value above zero starts alive, order
    /// and length are kept, and the rule table is built from `rule`.
    pub fn new(seed: Vec<u8>, rule: u8) -> (r: Ca)
        ensures
            r.wf(),
            r.state_seq() == bits_of(seed@),
            forall|p: int| 0 <= p < 8 ==> r.table()[p] == rule_bit(rule as int, p),
    {
        let mut state: Vec<Bit> = Vec::new();
        for i in 0..seed.len()
            invariant
                state@.len() == i,
                forall|j: int| 0 <= j < i ==> state@[j] == bit_of(seed@[j]),
        {
            state.push(Bit::from_u8(seed[i]));
        }
        proof {
            assert(state@ =~= bits_of(seed@));
        }
        Ca { state, rules: RuleTable::new(rule) }
    }

    /// The current generation as 0/1 values.
    pub fn state_vec(&self) -> (r: Vec<u8>)
        ensures
            r@ == row_of(self.state_seq()),
    {
        let mut r: Vec<u8> = Vec::new();
        for i in 0..self.state.len()
            invariant
                r@.len() == i,
                forall|j: int| 0 <= j < i ==> r@[j] == bit_value(self.state@[j]),
        {
            r.push(self.state[i].to_u8());
        }
        proof {
            assert(r@ =~= row_of(self.state_seq()));
        }
        r
    }

    /// Advances one generation in place. The whole new row is computed from
    /// the old one before it is committed, so every lookup sees the old
    /// generation.
    pub fn step(&mut self)
        requires
            old(self).wf(),
        ensures
            final(self).wf(),
            final(self).table() == old(self).table(),
            final(self).state_seq() == step_spec(old(self).state_seq(), old(self).table()),
    {
        let len: usize = self.state.len();
        let mut next: Vec<Bit> = Vec::new();
        for i in 0..len
            invariant
                *self == *old(self),
                len == self.state@.len(),
                self.wf(),
                next@.len() == i,
                forall|j: int|
                    0 <= j < i ==> next@[j] == step_spec(
                        old(self).state_seq(),
                        old(self).table(),
                    )[j],
        {
            let left: usize = if i == 0 {
                len - 1
            } else {
                i - 1
            };
            let right: usize = if i == len - 1 {
                0
            } else {
                i + 1
            };
            next.push(self.rules.get(self.state[left], self.state[i], self.state[right]));
        }
        proof {
            assert(next@ =~= step_spec(old(self).state_seq(), old(self).table()));
        }
        self.state = next;
    }

    /// Runs `n` generations and collects them: row `k` of the result is the
    /// state after `k` steps as 0/1 values, so row 0 is the state on entry,
    /// captured before any step. Exactly `n` rows come back, and the
    /// automaton is left `n` steps ahead of where it started.
    pub fn run(&mut self, n: usize) -> (res: Vec<Vec<u8>>)
        requires
            old(self).wf(),
        ensures
            final(self).wf(),
            final(self).table() == old(self).table(),
            final(self).state_seq() == states_at(
                old(self).state_seq(),
                old(self).table(),
                n as int,
            ),
            res@.len() == n,
            forall|k: int|
                0 <= k < n ==> (#[trigger] res@[k])@ == row_of(
                    states_at(old(self).state_seq(), old(self).table(), k),
                ),
    {
        let mut res: Vec<Vec<u8>> = Vec::new();
        for it in 0..n
            invariant
                self.wf(),
                self.table() == old(self).table(),
                self.state_seq() == states_at(
                    old(self).state_seq(),
                    old(self).table(),
                    it as int,
                ),
                res@.len() == it,
                forall|k: int|
                    0 <= k < it ==> (#[trigger] res@[k])@ == row_of(
                        states_at(old(self).state_seq(), old(self).table(), k),
                    ),
        {
            let row: Vec<u8> = self.state_vec();
            res.push(row);
            self.step();
            proof {
                assert(states_at(old(self).state_seq(), old(self).table(), it as int + 1)
                    == step_spec(
                    states_at(old(self).state_seq(), old(self).table(), it as int),
                    old(self).table(),
                ));
            }
        }
        res
    }
}

/// Looking a freshly built table up at a neighborhood gives exactly bit
/// `4*b2 + 2*b1 + b0` of the rule's binary expansion.
pub proof fn lemma_table_lookup_is_rule_bit(t: Seq<Bit>, rule: u8, b2: Bit, b1: Bit, b0: Bit)
    requires
        forall|p: int| 0 <= p < 8 ==> t[p] == rule_bit(rule as int, p),
    ensures
        t[pattern_index(b2, b1, b0)] == rule_bit(
            rule as int,
            4 * bit_value(b2) + 2 * bit_value(b1) + bit_value(b0),
        ),
{
    assert(0 <= pattern_index(b2, b1, b0) < 8);
}

/// The first captured row of a run is the starting state itself: no step
/// precedes it.
pub proof fn lemma_first_row_is_start(s: Seq<Bit>, t: Seq<Bit>)
    ensures
        states_at(s, t, 0) == s,
{
}

/// The engine is deterministic: two automatons built from the same seed and
/// the same rule pass through identical states, generation by generation.
pub proof fn lemma_run_deterministic(
    s1: Seq<Bit>,
    t1: Seq<Bit>,
    s2: Seq<Bit>,
    t2: Seq<Bit>,
    k: int,
)
    requires
        s1 == s2,
        t1 == t2,
    ensures
        states_at(s1, t1, k) == states_at(s2, t2, k),
{
}

} // verus!
