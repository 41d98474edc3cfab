//! The state of each piece, the order in which pieces are stacked, and what a
//! piece does when it is evaluated after a select, a release or an animation.
use vstd::prelude::*;

verus! {

/// Whether a piece can be picked up (`Free`), is on its way somewhere
/// (`Move`), or sits in its place for good (`Locked`).
#[derive(Clone, Copy, Debug, PartialEq, Eq, Structural)]
pub enum PieceState {
    Free,
    Move,
    Locked,
}

/// Why a piece is evaluated in this tick.
#[derive(Clone, Copy, Debug, PartialEq, Eq, Structural)]
pub enum Evaluate {
    Select,
    Release,
    FreeAnimFinished,
    LockAnimFinished,
}

/// The pieces (by entity id) from the bottom of the stack to the top.
pub struct PiecesOrder(pub Vec<u64>);

/// The result of evaluating a piece: its new state, and whether it starts
/// the animation that moves it into its place.
#[derive(Clone, Copy, Debug, PartialEq, Eq, Structural)]
pub struct EvaluateOutcome {
    pub state: PieceState,
    pub lock_tween: bool,
}

/// The outcome of evaluating a piece in `state` for `evaluate`, where `found`
/// tells whether the piece has an index and `near_target` whether a released
/// piece lies close enough to its place to lock into it.
pub open spec fn evaluate_outcome(
    evaluate: Evaluate,
    state: PieceState,
    found: bool,
    near_target: bool,
) -> EvaluateOutcome {
    match evaluate {
        Evaluate::Select => EvaluateOutcome { state, lock_tween: false },
        Evaluate::Release => if !found {
            EvaluateOutcome { state, lock_tween: false }
        } else if near_target {
            EvaluateOutcome { state: PieceState::Locked, lock_tween: true }
        } else {
            EvaluateOutcome { state: PieceState::Free, lock_tween: false }
        },
        Evaluate::FreeAnimFinished => EvaluateOutcome { state: PieceState::Free, lock_tween: false },
        Evaluate::LockAnimFinished => EvaluateOutcome {
            state: PieceState::Locked,
            lock_tween: false,
        },
    }
}

/// Evaluates the piece `entity`, whose index among the pieces is `index` (if
/// it has one). Selecting a piece with an index takes the entry at that
/// position out of the stacking order and puts the piece on top.
pub fn evaluate_piece(
    order: &mut PiecesOrder,
    entity: u64,
    index: Option<usize>,
    evaluate: Evaluate,
    state: PieceState,
    near_target: bool,
) -> (outcome: EvaluateOutcome)
    requires
        evaluate == Evaluate::Select && index is Some ==> index->0 < old(order).0@.len(),
    ensures
        outcome == evaluate_outcome(evaluate, state, index is Some, near_target),
        final(order).0@ == if evaluate == Evaluate::Select && index is Some {
            old(order).0@.remove(index->0 as int).push(entity)
        } else {
            old(order).0@
        },
{
    match evaluate {
        Evaluate::Select => {
            if let Some(i) = index {
                order.0.remove(i);
                order.0.push(entity);
            }
            EvaluateOutcome { state, lock_tween: false }
        },
        Evaluate::Release => {
            match index {
                Some(_) => {
                    if near_target {
                        EvaluateOutcome { state: PieceState::Locked, lock_tween: true }
                    } else {
                        EvaluateOutcome { state: PieceState::Free, lock_tween: false }
                    }
                },
                None => EvaluateOutcome { state, lock_tween: false },
            }
        },
        Evaluate::FreeAnimFinished => EvaluateOutcome { state: PieceState::Free, lock_tween: false },
        Evaluate::LockAnimFinished => EvaluateOutcome {
            state: PieceState::Locked,
            lock_tween: false,
        },
    }
}

/// A finished scatter animation frees the piece and a finished lock
/// animation locks it, whatever its state before and whether or not it has
/// an index; neither starts another animation. A selection keeps the state,
/// and a release of an indexed piece locks it (starting the lock animation)
/// exactly when it is near its place, and frees it otherwise.
pub proof fn lemma_evaluate_settles(state: PieceState, found: bool, near_target: bool)
    ensures
        evaluate_outcome(Evaluate::FreeAnimFinished, state, found, near_target) == (EvaluateOutcome {
            state: PieceState::Free,
            lock_tween: false,
        }),
        evaluate_outcome(Evaluate::LockAnimFinished, state, found, near_target) == (EvaluateOutcome {
            state: PieceState::Locked,
            lock_tween: false,
        }),
        evaluate_outcome(Evaluate::Select, state, found, near_target) == (EvaluateOutcome {
            state,
            lock_tween: false,
        }),
        found ==> evaluate_outcome(Evaluate::Release, state, found, near_target).lock_tween
            == near_target,
        found ==> evaluate_outcome(Evaluate::Release, state, found, near_target).state == if near_target {
            PieceState::Locked
        } else {
            PieceState::Free
        },
        !found ==> evaluate_outcome(Evaluate::Release, state, found, near_target) == (EvaluateOutcome {
            state,
            lock_tween: false,
        }),
{
}

/// Selecting a piece keeps the number of stacked pieces and puts the
/// selected piece on top of the stack.
pub proof fn lemma_select_puts_on_top(order: Seq<u64>, index: int, entity: u64)
    requires
        0 <= index < order.len(),
    ensures
        order.remove(index).push(entity).len() == order.len(),
        order.remove(index).push(entity).last() == entity,
        order[index] == entity ==> order.remove(index).push(entity).to_multiset()
            == order.to_multiset(),
{
    broadcast use vstd::seq_lib::group_to_multiset_ensures;

    if order[index] == entity {
        assert(order.remove(index).push(entity).to_multiset() == order.remove(
            index,
        ).to_multiset().insert(entity));
    }
}

} // verus!
