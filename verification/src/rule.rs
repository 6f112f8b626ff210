//! The pluggable rewrite rule: the grammar's only customization point.

use crate::symbol::Symbol;
use vstd::prelude::*;

verus! {

/// A configuration error: the rule does not cover a symbol that appeared in
/// the sequence, most often a `Generic` id the grammar never defined. The
/// offending symbol is carried along.
#[derive(Clone, Copy, Debug, PartialEq, Eq, Structural)]
pub enum RuleError {
    UnknownSymbol(Symbol),
}

/// A rewrite rule: a pure mapping from one symbol to the symbols that replace
/// it in the next generation. A symbol the rule does not cover is a
/// configuration error, reported rather than silently dropped.
pub trait Rule: Sized {
    /// Whether the rule defines a replacement for `s`. Unless overridden, a
    /// rule covers everything.
    open spec fn covers(&self, s: Symbol) -> bool {
        true
    }

    /// The replacement sequence for a covered symbol. Unless overridden, a
    /// rule re-emits every symbol unchanged.
    open spec fn expansion(&self, s: Symbol) -> Seq<Symbol> {
        seq![s]
    }

    /// Appends the replacement of `s` to `out`; on an uncovered symbol it
    /// reports the configuration error and appends nothing.
    fn expand(&self, s: &Symbol, out: &mut Vec<Symbol>) -> (r: Result<(), RuleError>)
        ensures
            r is Ok <==> self.covers(*s),
            self.covers(*s) ==> final(out)@ == old(out)@ + self.expansion(*s),
            !self.covers(*s) ==> final(out)@ == old(out)@ && r == Err::<(), RuleError>(
                RuleError::UnknownSymbol(*s),
            ),
    ;
}

/// The replacement for the `Generic` id `id` in a rule table: the second
/// component of the first entry keyed by `id`, if any.
pub open spec fn table_lookup(entries: Seq<(u32, Vec<Symbol>)>, id: u32) -> Option<Seq<Symbol>>
    decreases entries.len(),
{
    if entries.len() == 0 {
        None
    } else if entries[0].0 == id {
        Some(entries[0].1@)
    } else {
        table_lookup(entries.drop_first(), id)
    }
}

/// A table-driven rule: every `Generic(id)` is replaced by the table entry
/// keyed by `id`, and every other symbol re-emits itself unchanged. An id
/// missing from the table is the configuration error.
pub struct TableRule {
    /// The table, searched front to back; the first entry keyed by an id
    /// wins.
    pub entries: Vec<(u32, Vec<Symbol>)>,
}

impl TableRule {
    /// A rule over the given table.
    pub fn new(entries: Vec<(u32, Vec<Symbol>)>) -> (r: TableRule)
        ensures
            r.entries@ == entries@,
    {
        TableRule { entries }
    }
}

impl Rule for TableRule {
    open spec fn covers(&self, s: Symbol) -> bool {
        match s {
            Symbol::Generic(id) => table_lookup(self.entries@, id) is Some,
            _ => true,
        }
    }

    open spec fn expansion(&self, s: Symbol) -> Seq<Symbol> {
        match s {
            Symbol::Generic(id) => table_lookup(self.entries@, id).unwrap(),
            _ => seq![s],
        }
    }

    fn expand(&self, s: &Symbol, out: &mut Vec<Symbol>) -> (r: Result<(), RuleError>) {
        match s {
            Symbol::Generic(id) => {
                proof {
                    assert(self.entries@.skip(0) =~= self.entries@);
                }
                let mut i: usize = 0;
                while i < self.entries.len()
                    invariant
                        *s == Symbol::Generic(*id),
                        i <= self.entries@.len(),
                        out@ == old(out)@,
                        table_lookup(self.entries@, *id) == table_lookup(
                            self.entries@.skip(i as int),
                            *id,
                        ),
                    decreases self.entries@.len() - i,
                {
                    proof {
                        assert(self.entries@.skip(i as int)[0] == self.entries@[i as int]);
                        assert(self.entries@.skip(i as int).drop_first() =~= self.entries@.skip(
                            i as int + 1,
                        ));
                    }
                    if self.entries[i].0 == *id {
                        proof {
                            assert(table_lookup(self.entries@.skip(i as int), *id) == Some(
                                self.entries@[i as int].1@,
                            ));
                        }
                        let replacement = &self.entries[i].1;
                        let mut j: usize = 0;
                        while j < replacement.len()
                            invariant
                                *s == Symbol::Generic(*id),
                                i < self.entries@.len(),
                                j <= replacement@.len(),
                                replacement@ == self.entries@[i as int].1@,
                                table_lookup(self.entries@, *id) == Some(replacement@),
                                out@ == old(out)@ + replacement@.take(j as int),
                            decreases replacement@.len() - j,
                        {
                            let sym = replacement[j];
                            out.push(sym);
                            proof {
                                assert(replacement@.take(j as int + 1) =~= replacement@.take(
                                    j as int,
                                ).push(replacement@[j as int]));
                            }
                            j = j + 1;
                        }
                        proof {
                            assert(replacement@.take(replacement@.len() as int) =~= replacement@);
                        }
                        return Ok(());
                    }
                    i = i + 1;
                }
                proof {
                    assert(self.entries@.skip(self.entries@.len() as int) =~= Seq::<(
                        u32,
                        Vec<Symbol>,
                    )>::empty());
                }
                Err(RuleError::UnknownSymbol(*s))
            },
            _ => {
                out.push(*s);
                proof {
                    assert(out@ =~= old(out)@ + self.expansion(*s));
                }
                Ok(())
            },
        }
    }
}

} // verus!
