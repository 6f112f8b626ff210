//! The turtle-graphics interpreter.
//!
//! A turtle holds a position, a heading and a stack of saved states, and
//! emits geometry vertices in pairs, one pair per forward move. The real
//! arithmetic of a move — the new heading after a turn, the new position
//! after a translation — is the caller's: the caller walks the symbol
//! sequence, computes those values, and drives the turtle through the
//! verified transitions here. The spec-level model below describes a whole
//! such walk, for every choice of the caller's arithmetic, and the proof
//! functions state the interpreter's structural laws over it.

use crate::geometry::Vertex;
use crate::symbol::Symbol;
use vstd::prelude::*;

verus! {

/// The turtle's state: a position and a heading, each coordinate the bit
/// pattern of a double-precision value held in a plain integer.
#[derive(Clone, Copy, Debug, PartialEq, Eq, Structural)]
pub struct TurtleState {
    pub x: u64,
    pub y: u64,
    pub heading: u64,
}

/// Restoring from an empty stack is a precondition violation, surfaced as an
/// explicit error rather than a crash.
#[derive(Clone, Copy, Debug, PartialEq, Eq, Structural)]
pub enum TurtleError {
    EmptyStack,
}

/// The turtle as the specification sees it.
pub struct TurtleModel {
    pub state: TurtleState,
    pub stack: Seq<TurtleState>,
    pub points: Seq<Vertex>,
}

/// The state every interpretation starts from: the origin, heading minus pi
/// over two (pointing up), no saved states, no vertices.
pub open spec fn initial_model() -> TurtleModel {
    TurtleModel {
        state: TurtleState { x: 0, y: 0, heading: crate::INITIAL_HEADING_BITS },
        stack: Seq::empty(),
        points: Seq::empty(),
    }
}

/// The turtle-graphics interpreter state machine.
pub struct Turtle {
    state: TurtleState,
    stack: Vec<TurtleState>,
    points: Vec<Vertex>,
}

impl View for Turtle {
    type V = TurtleModel;

    closed spec fn view(&self) -> TurtleModel {
        TurtleModel { state: self.state, stack: self.stack@, points: self.points@ }
    }
}

impl Turtle {
    /// A turtle in the initial state.
    pub fn new() -> (t: Turtle)
        ensures
            t@ == initial_model(),
    {
        let t = Turtle {
            state: TurtleState { x: 0, y: 0, heading: crate::INITIAL_HEADING_BITS },
            stack: Vec::new(),
            points: Vec::new(),
        };
        proof {
            assert(t@.stack =~= initial_model().stack);
            assert(t@.points =~= initial_model().points);
        }
        t
    }

    /// The current position and heading.
    pub fn state(&self) -> (s: TurtleState)
        ensures
            s == self@.state,
    {
        self.state
    }

    /// How many states are saved on the stack.
    pub fn depth(&self) -> (n: usize)
        ensures
            n == self@.stack.len(),
    {
        self.stack.len()
    }

    /// Saves the current state on the stack (the effect of `Push`).
    pub fn save(&mut self)
        ensures
            final(self)@.state == old(self)@.state,
            final(self)@.stack == old(self)@.stack.push(old(self)@.state),
            final(self)@.points == old(self)@.points,
    {
        let s = self.state;
        self.stack.push(s);
    }

    /// Restores the most recently saved state (the effect of `Pop`). With
    /// nothing saved it returns the empty-stack error and changes nothing.
    pub fn restore(&mut self) -> (r: Result<(), TurtleError>)
        ensures
            old(self)@.stack.len() == 0 ==> r == Err::<(), TurtleError>(TurtleError::EmptyStack)
                && final(self)@ == old(self)@,
            old(self)@.stack.len() > 0 ==> r == Ok::<(), TurtleError>(()) && final(self)@.state
                == old(self)@.stack.last() && final(self)@.stack == old(self)@.stack.drop_last()
                && final(self)@.points == old(self)@.points,
    {
        match self.stack.pop() {
            Some(s) => {
                self.state = s;
                Ok(())
            },
            None => {
                proof {
                    assert(old(self)@.stack =~= self@.stack);
                }
                Err(TurtleError::EmptyStack)
            },
        }
    }

    /// Sets the heading to `heading` (the effect of `Turn`, whose new heading
    /// — the old one plus the carried angle — the caller computes).
    pub fn turn_to(&mut self, heading: u64)
        ensures
            final(self)@.state == (TurtleState { heading, ..old(self)@.state }),
            final(self)@.stack == old(self)@.stack,
            final(self)@.points == old(self)@.points,
    {
        self.state.heading = heading;
    }

    /// Moves to `(x, y)` (the effect of `Translate`, whose new position —
    /// the old one advanced by the carried distance along the heading — the
    /// caller computes), emitting the old and the new position, in that
    /// order: one drawable segment.
    pub fn advance_to(&mut self, x: u64, y: u64)
        ensures
            final(self)@.state == (TurtleState { x, y, heading: old(self)@.state.heading }),
            final(self)@.stack == old(self)@.stack,
            final(self)@.points == old(self)@.points.push(
                Vertex { x: old(self)@.state.x, y: old(self)@.state.y },
            ).push(Vertex { x, y }),
    {
        let from = Vertex { x: self.state.x, y: self.state.y };
        self.points.push(from);
        self.points.push(Vertex { x, y });
        self.state.x = x;
        self.state.y = y;
    }

    /// Hands out the emitted vertices, consuming the turtle.
    pub fn into_points(self) -> (v: Vec<Vertex>)
        ensures
            v@ == self@.points,
    {
        self.points
    }
}

/// One interpretation step of the model on one symbol. `turn` stands for the
/// caller's arithmetic on a `Turn` (from current heading and carried angle to
/// new heading), `advance` for its arithmetic on a `Translate` (from current
/// state and carried distance to new position); the laws below hold for
/// every choice of the two. `Pop` on an empty stack yields `None`; a
/// `Generic` symbol has no geometric effect.
pub open spec fn step_model(
    m: TurtleModel,
    sym: Symbol,
    turn: spec_fn(u64, u64) -> u64,
    advance: spec_fn(TurtleState, u64) -> (u64, u64),
) -> Option<TurtleModel> {
    match sym {
        Symbol::Push => Some(TurtleModel { stack: m.stack.push(m.state), ..m }),
        Symbol::Pop => if m.stack.len() == 0 {
            None
        } else {
            Some(TurtleModel { state: m.stack.last(), stack: m.stack.drop_last(), ..m })
        },
        Symbol::Turn(a) => Some(
            TurtleModel { state: TurtleState { heading: turn(m.state.heading, a), ..m.state }, ..m },
        ),
        Symbol::Translate(d) => {
            let (nx, ny) = advance(m.state, d);
            Some(
                TurtleModel {
                    state: TurtleState { x: nx, y: ny, heading: m.state.heading },
                    stack: m.stack,
                    points: m.points.push(Vertex { x: m.state.x, y: m.state.y }).push(
                        Vertex { x: nx, y: ny },
                    ),
                },
            )
        },
        Symbol::Generic(_) => Some(m),
    }
}

/// Interprets a whole symbol sequence on the model, strictly left to right,
/// failing exactly when some `Pop` finds the stack empty.
pub open spec fn run_model(
    syms: Seq<Symbol>,
    turn: spec_fn(u64, u64) -> u64,
    advance: spec_fn(TurtleState, u64) -> (u64, u64),
    m: TurtleModel,
) -> Option<TurtleModel>
    decreases syms.len(),
{
    if syms.len() == 0 {
        Some(m)
    } else {
        match step_model(m, syms[0], turn, advance) {
            None => None,
            Some(m2) => run_model(syms.drop_first(), turn, advance, m2),
        }
    }
}

/// How many `Push` symbols a sequence holds.
pub open spec fn count_push(syms: Seq<Symbol>) -> nat
    decreases syms.len(),
{
    if syms.len() == 0 {
        0
    } else {
        (if syms[0] is Push {
            1nat
        } else {
            0nat
        }) + count_push(syms.drop_first())
    }
}

/// How many `Pop` symbols a sequence holds.
pub open spec fn count_pop(syms: Seq<Symbol>) -> nat
    decreases syms.len(),
{
    if syms.len() == 0 {
        0
    } else {
        (if syms[0] is Pop {
            1nat
        } else {
            0nat
        }) + count_pop(syms.drop_first())
    }
}

/// How many `Translate` symbols a sequence holds.
pub open spec fn count_translate(syms: Seq<Symbol>) -> nat
    decreases syms.len(),
{
    if syms.len() == 0 {
        0
    } else {
        (if syms[0] is Translate {
            1nat
        } else {
            0nat
        }) + count_translate(syms.drop_first())
    }
}

/// A well-formed program: every `Pop` has a matching earlier `Push` — no
/// prefix holds more pops than pushes — and the two counts agree overall.
pub open spec fn balanced(syms: Seq<Symbol>) -> bool {
    count_pop(syms) == count_push(syms) && forall|k: int|
        0 <= k <= syms.len() ==> #[trigger] count_pop(syms.take(k)) <= count_push(syms.take(k))
}

proof fn lemma_count_drop_first(syms: Seq<Symbol>, k: int)
    requires
        0 <= k < syms.len(),
    ensures
        count_push(syms.take(k + 1)) == (if syms[0] is Push {
            1nat
        } else {
            0nat
        }) + count_push(syms.drop_first().take(k)),
        count_pop(syms.take(k + 1)) == (if syms[0] is Pop {
            1nat
        } else {
            0nat
        }) + count_pop(syms.drop_first().take(k)),
{
    assert(syms.take(k + 1)[0] == syms[0]);
    assert(syms.take(k + 1).len() == k + 1);
    assert(syms.take(k + 1).drop_first() =~= syms.drop_first().take(k));
}

/// A run on a model whose stack no prefix can exhaust never fails, and ends
/// with the stack grown by the pushes and shrunk by the pops.
proof fn lemma_run_stack(
    syms: Seq<Symbol>,
    turn: spec_fn(u64, u64) -> u64,
    advance: spec_fn(TurtleState, u64) -> (u64, u64),
    m: TurtleModel,
)
    requires
        forall|k: int|
            0 <= k <= syms.len() ==> #[trigger] count_pop(syms.take(k)) <= count_push(syms.take(k))
                + m.stack.len(),
    ensures
        run_model(syms, turn, advance, m) is Some,
        run_model(syms, turn, advance, m).unwrap().stack.len() == m.stack.len() + count_push(syms)
            - count_pop(syms),
    decreases syms.len(),
{
    if syms.len() == 0 {
    } else {
        let s0 = syms[0];
        if s0 is Pop {
            assert(count_pop(syms.take(1)) <= count_push(syms.take(1)) + m.stack.len());
            lemma_count_drop_first(syms, 0);
            assert(syms.drop_first().take(0) =~= Seq::<Symbol>::empty());
            assert(count_pop(Seq::<Symbol>::empty()) == 0);
            assert(count_push(Seq::<Symbol>::empty()) == 0);
            assert(m.stack.len() >= 1);
        }
        let m2 = step_model(m, s0, turn, advance).unwrap();
        assert forall|k: int| 0 <= k <= syms.drop_first().len() implies #[trigger] count_pop(
            syms.drop_first().take(k),
        ) <= count_push(syms.drop_first().take(k)) + m2.stack.len() by {
            assert(count_pop(syms.take(k + 1)) <= count_push(syms.take(k + 1)) + m.stack.len());
            lemma_count_drop_first(syms, k);
        }
        lemma_run_stack(syms.drop_first(), turn, advance, m2);
        assert(count_push(syms) == (if syms[0] is Push {
            1nat
        } else {
            0nat
        }) + count_push(syms.drop_first()));
        assert(count_pop(syms) == (if syms[0] is Pop {
            1nat
        } else {
            0nat
        }) + count_pop(syms.drop_first()));
    }
}

/// For every well-formed program — balanced `Push` and `Pop` — and every
/// choice of the caller's arithmetic, interpretation starting from the empty
/// stack succeeds and returns to the empty stack.
pub proof fn lemma_balanced_run_empties_stack(
    syms: Seq<Symbol>,
    turn: spec_fn(u64, u64) -> u64,
    advance: spec_fn(TurtleState, u64) -> (u64, u64),
    m: TurtleModel,
)
    requires
        balanced(syms),
        m.stack.len() == 0,
    ensures
        run_model(syms, turn, advance, m) is Some,
        run_model(syms, turn, advance, m).unwrap().stack.len() == 0,
{
    lemma_run_stack(syms, turn, advance, m);
}

/// For every symbol sequence on which interpretation succeeds, and every
/// choice of the caller's arithmetic, the output grows by exactly two
/// vertices per `Translate` symbol: one emitted segment each.
pub proof fn lemma_run_point_count(
    syms: Seq<Symbol>,
    turn: spec_fn(u64, u64) -> u64,
    advance: spec_fn(TurtleState, u64) -> (u64, u64),
    m: TurtleModel,
)
    requires
        run_model(syms, turn, advance, m) is Some,
    ensures
        run_model(syms, turn, advance, m).unwrap().points.len() == m.points.len() + 2
            * count_translate(syms),
    decreases syms.len(),
{
    if syms.len() == 0 {
    } else {
        let m2 = step_model(m, syms[0], turn, advance).unwrap();
        lemma_run_point_count(syms.drop_first(), turn, advance, m2);
    }
}

} // verus!
