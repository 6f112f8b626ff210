//! The generational rewrite engine.
//!
//! The engine owns the current symbol sequence and a rewrite rule, and
//! advances the sequence by one whole generation per step: every symbol is
//! replaced, in order, by its expansion under the rule. A step keeps two
//! reusable buffers, writing the new generation into the spare one and
//! swapping their roles afterwards, so that no generation is ever read from
//! and written to the same storage.

use crate::rule::Rule;
use crate::rule::RuleError;
use crate::symbol::Symbol;
use vstd::prelude::*;

verus! {

/// Whether the rule covers every symbol of the sequence.
pub open spec fn all_covered<R: Rule>(rule: R, syms: Seq<Symbol>) -> bool {
    forall|i: int| 0 <= i < syms.len() ==> rule.covers(#[trigger] syms[i])
}

/// One whole generation: the concatenation, in order, of every symbol's
/// expansion under the rule.
pub open spec fn expand_all<R: Rule>(rule: R, syms: Seq<Symbol>) -> Seq<Symbol>
    decreases syms.len(),
{
    if syms.len() == 0 {
        Seq::empty()
    } else {
        rule.expansion(syms[0]) + expand_all(rule, syms.drop_first())
    }
}

/// The leftmost symbol of the sequence that the rule does not cover.
pub open spec fn first_uncovered<R: Rule>(rule: R, syms: Seq<Symbol>) -> Symbol
    decreases syms.len(),
{
    if syms.len() == 0 {
        arbitrary()
    } else if !rule.covers(syms[0]) {
        syms[0]
    } else {
        first_uncovered(rule, syms.drop_first())
    }
}

/// The sequence after `n` whole generations.
pub open spec fn expand_n<R: Rule>(rule: R, syms: Seq<Symbol>, n: nat) -> Seq<Symbol>
    decreases n,
{
    if n == 0 {
        syms
    } else {
        expand_n(rule, expand_all(rule, syms), (n - 1) as nat)
    }
}

/// Whether the rule covers every symbol of every one of the `n` generations
/// stepped through from `syms`.
pub open spec fn covered_n<R: Rule>(rule: R, syms: Seq<Symbol>, n: nat) -> bool
    decreases n,
{
    n > 0 ==> all_covered(rule, syms) && covered_n(rule, expand_all(rule, syms), (n - 1) as nat)
}

/// Appending one symbol's expansion extends the generation by one symbol.
proof fn lemma_expand_all_snoc<R: Rule>(rule: R, syms: Seq<Symbol>, k: int)
    requires
        0 <= k < syms.len(),
    ensures
        expand_all(rule, syms.take(k + 1)) == expand_all(rule, syms.take(k)) + rule.expansion(
            syms[k],
        ),
    decreases k,
{
    if k == 0 {
        assert(syms.take(1)[0] == syms[0]);
        assert(syms.take(1).drop_first() =~= Seq::<Symbol>::empty());
        assert(syms.take(0) =~= Seq::<Symbol>::empty());
        assert(expand_all(rule, syms.take(1)) =~= expand_all(rule, syms.take(0)) + rule.expansion(
            syms[0],
        ));
    } else {
        assert(syms.take(k + 1)[0] == syms[0]);
        assert(syms.take(k)[0] == syms[0]);
        assert(syms.take(k + 1).drop_first() =~= syms.drop_first().take(k));
        assert(syms.take(k).drop_first() =~= syms.drop_first().take(k - 1));
        lemma_expand_all_snoc(rule, syms.drop_first(), k - 1);
        assert(syms.drop_first()[k - 1] == syms[k]);
        assert(expand_all(rule, syms.take(k + 1)) =~= expand_all(rule, syms.take(k))
            + rule.expansion(syms[k]));
    }
}

/// The rewrite engine: the current symbol sequence, its rule, and the spare
/// buffer the next generation is built in.
pub struct System<R: Rule> {
    rule: R,
    symbols: Vec<Symbol>,
    symbols_swap: Vec<Symbol>,
}

impl<R: Rule> View for System<R> {
    type V = Seq<Symbol>;

    /// The engine's view: the current symbol sequence.
    closed spec fn view(&self) -> Seq<Symbol> {
        self.symbols@
    }
}

impl<R: Rule> System<R> {
    /// The engine's rule.
    pub closed spec fn rule(&self) -> R {
        self.rule
    }

    /// Between steps the spare buffer is empty, ready for reuse.
    pub closed spec fn wf(&self) -> bool {
        self.symbols_swap@.len() == 0
    }

    /// An engine with the given rule and an empty sequence.
    pub fn new(rule: R) -> (s: System<R>)
        ensures
            s.wf(),
            s@ =~= Seq::<Symbol>::empty(),
            s.rule() == rule,
    {
        System { rule, symbols: Vec::new(), symbols_swap: Vec::new() }
    }

    /// Replaces the current sequence with the given axiom.
    pub fn init(&mut self, symbols: Vec<Symbol>)
        requires
            old(self).wf(),
        ensures
            final(self).wf(),
            final(self)@ == symbols@,
            final(self).rule() == old(self).rule(),
    {
        self.symbols = symbols;
    }

    /// The current symbol sequence.
    pub fn symbols(&self) -> (v: &Vec<Symbol>)
        ensures
            v@ == self@,
    {
        &self.symbols
    }

    /// Advances the sequence by one whole generation. When the rule covers
    /// every current symbol the expansion replaces the sequence entirely; on
    /// the leftmost uncovered symbol the configuration error is returned and
    /// the sequence is left as it was, uncorrupted.
    pub fn step(&mut self) -> (r: Result<(), RuleError>)
        requires
            old(self).wf(),
        ensures
            final(self).wf(),
            final(self).rule() == old(self).rule(),
            all_covered(old(self).rule(), old(self)@) ==> r == Ok::<(), RuleError>(())
                && final(self)@ == expand_all(old(self).rule(), old(self)@),
            !all_covered(old(self).rule(), old(self)@) ==> r == Err::<(), RuleError>(
                RuleError::UnknownSymbol(first_uncovered(old(self).rule(), old(self)@)),
            ) && final(self)@ == old(self)@,
    {
        let mut i: usize = 0;
        proof {
            assert(self@.take(0) =~= Seq::<Symbol>::empty());
        }
        while i < self.symbols.len()
            invariant
                i <= self.symbols@.len(),
                self.symbols@ == old(self).symbols@,
                self.rule == old(self).rule,
                all_covered(self.rule, self.symbols@.take(i as int)),
                self.symbols_swap@ == expand_all(self.rule, self.symbols@.take(i as int)),
            decreases self.symbols@.len() - i,
        {
            let sym = self.symbols[i];
            let res = self.rule.expand(&sym, &mut self.symbols_swap);
            match res {
                Ok(()) => {
                    proof {
                        lemma_expand_all_snoc(self.rule, self.symbols@, i as int);
                        assert forall|k: int|
                            0 <= k < i as int + 1 implies self.rule.covers(
                            #[trigger] self.symbols@.take(i as int + 1)[k],
                        ) by {
                            if k < i as int {
                                assert(self.symbols@.take(i as int)[k] == self.symbols@.take(
                                    i as int + 1,
                                )[k]);
                            }
                        }
                    }
                },
                Err(e) => {
                    proof {
                        lemma_first_uncovered_here(self.rule, self.symbols@, i as int);
                    }
                    self.symbols_swap.clear();
                    return Err(e);
                },
            }
            i = i + 1;
        }
        proof {
            assert(self.symbols@.take(self.symbols@.len() as int) =~= self.symbols@);
        }
        core::mem::swap(&mut self.symbols, &mut self.symbols_swap);
        self.symbols_swap.clear();
        Ok(())
    }

    /// Advances the sequence by `steps` whole generations, stopping at the
    /// first generation whose sequence the rule does not fully cover; the
    /// sequence is then left at that generation.
    pub fn run(&mut self, steps: usize) -> (r: Result<(), RuleError>)
        requires
            old(self).wf(),
        ensures
            final(self).wf(),
            final(self).rule() == old(self).rule(),
            covered_n(old(self).rule(), old(self)@, steps as nat) ==> r == Ok::<(), RuleError>(())
                && final(self)@ == expand_n(old(self).rule(), old(self)@, steps as nat),
            !covered_n(old(self).rule(), old(self)@, steps as nat) ==> r is Err && exists|k: nat|
                k < steps as nat && #[trigger] covered_n(old(self).rule(), old(self)@, k)
                    && !all_covered(old(self).rule(), expand_n(old(self).rule(), old(self)@, k))
                    && final(self)@ == expand_n(old(self).rule(), old(self)@, k) && r == Err::<
                    (),
                    RuleError,
                >(
                    RuleError::UnknownSymbol(
                        first_uncovered(
                            old(self).rule(),
                            expand_n(old(self).rule(), old(self)@, k),
                        ),
                    ),
                ),
    {
        let mut g: usize = 0;
        while g < steps
            invariant
                g <= steps,
                self.wf(),
                self.rule == old(self).rule,
                covered_n(old(self).rule(), old(self)@, g as nat),
                self@ == expand_n(old(self).rule(), old(self)@, g as nat),
            decreases steps - g,
        {
            let res = self.step();
            match res {
                Ok(()) => {
                    proof {
                        lemma_covered_n_snoc(old(self).rule(), old(self)@, g as nat);
                        lemma_expand_n_snoc(old(self).rule(), old(self)@, g as nat);
                    }
                },
                Err(e) => {
                    proof {
                        lemma_covered_n_stops(old(self).rule(), old(self)@, g as nat, steps as nat);
                    }
                    return Err(e);
                },
            }
            g = g + 1;
        }
        Ok(())
    }
}

/// When the leftmost `k` symbols are covered and the one at `k` is not, that
/// one is the leftmost uncovered symbol.
proof fn lemma_first_uncovered_here<R: Rule>(rule: R, syms: Seq<Symbol>, k: int)
    requires
        0 <= k < syms.len(),
        all_covered(rule, syms.take(k)),
        !rule.covers(syms[k]),
    ensures
        !all_covered(rule, syms),
        first_uncovered(rule, syms) == syms[k],
    decreases k,
{
    if k == 0 {
    } else {
        assert(rule.covers(syms.take(k)[0]));
        assert forall|j: int| 0 <= j < k - 1 implies rule.covers(
            #[trigger] syms.drop_first().take(k - 1)[j],
        ) by {
            assert(syms.drop_first().take(k - 1)[j] == syms.take(k)[j + 1]);
        }
        assert(syms.drop_first()[k - 1] == syms[k]);
        lemma_first_uncovered_here(rule, syms.drop_first(), k - 1);
    }
}

/// A generation step under full coverage extends the covered horizon by one.
proof fn lemma_covered_n_snoc<R: Rule>(rule: R, syms: Seq<Symbol>, n: nat)
    requires
        covered_n(rule, syms, n),
        all_covered(rule, expand_n(rule, syms, n)),
    ensures
        covered_n(rule, syms, n + 1),
    decreases n,
{
    assert(covered_n(rule, syms, n + 1) == (all_covered(rule, syms) && covered_n(
        rule,
        expand_all(rule, syms),
        n,
    )));
    if n == 0 {
        assert(expand_n(rule, syms, 0) == syms);
    } else {
        assert(covered_n(rule, syms, n) == (all_covered(rule, syms) && covered_n(
            rule,
            expand_all(rule, syms),
            (n - 1) as nat,
        )));
        assert(expand_n(rule, syms, n) == expand_n(rule, expand_all(rule, syms), (n - 1) as nat));
        lemma_covered_n_snoc(rule, expand_all(rule, syms), (n - 1) as nat);
    }
}

/// Expanding the `n`-th generation once more is the same as stepping `n + 1`
/// generations.
proof fn lemma_expand_n_snoc<R: Rule>(rule: R, syms: Seq<Symbol>, n: nat)
    ensures
        expand_n(rule, syms, n + 1) == expand_all(rule, expand_n(rule, syms, n)),
    decreases n,
{
    assert(expand_n(rule, syms, n + 1) == expand_n(rule, expand_all(rule, syms), n));
    if n == 0 {
        assert(expand_n(rule, expand_all(rule, syms), 0) == expand_all(rule, syms));
        assert(expand_n(rule, syms, 0) == syms);
    } else {
        assert(expand_n(rule, syms, n) == expand_n(rule, expand_all(rule, syms), (n - 1) as nat));
        lemma_expand_n_snoc(rule, expand_all(rule, syms), (n - 1) as nat);
    }
}

/// A generation the rule does not fully cover stops every longer run.
proof fn lemma_covered_n_stops<R: Rule>(rule: R, syms: Seq<Symbol>, k: nat, n: nat)
    requires
        k < n,
        covered_n(rule, syms, k),
        !all_covered(rule, expand_n(rule, syms, k)),
    ensures
        !covered_n(rule, syms, n),
    decreases k,
{
    if k == 0 {
    } else {
        lemma_covered_n_stops(rule, expand_all(rule, syms), (k - 1) as nat, (n - 1) as nat);
    }
}

} // verus!
