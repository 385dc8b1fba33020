//! The undo/redo action log.
//!
//! Every edit is recorded as a reversible `Action`. An action applied
//! backward (`undo_step`) exactly restores the document it was recorded on,
//! and applied forward (`redo_step`) exactly restores the edited document;
//! the two lemmas at the bottom prove these round trips. Folding a whole
//! stack of actions backward (`rewind`) or forward (`forward`) gives the
//! document at the far end of the log; the buffer keeps both folds invariant
//! across every operation, which is the undo/redo inverse law.

use crate::edits::{
    extract_block, insert_end_x, insert_end_y, lemma_delete_then_insert, lemma_insert_then_delete,
    pos_valid, span_valid, splice_delete, splice_insert,
};
use crate::text::TextBlock;
use vstd::prelude::*;

verus! {

/// A reversible edit: the span it touched and the text it removed or added.
/// A replacement carries both texts, so one undo reverts the whole exchange.
pub enum Action {
    /// `text` was inserted at `(x1, y1)` and now occupies the span up to
    /// `(x2, y2)`.
    Insert { x1: usize, y1: usize, x2: usize, y2: usize, text: TextBlock },
    /// `text` occupied the span from `(x1, y1)` to `(x2, y2)` and was
    /// removed.
    Delete { x1: usize, y1: usize, x2: usize, y2: usize, text: TextBlock },
    /// `deleted` occupied the span from `(x1, y1)` to `(dx2, dy2)` and was
    /// exchanged for `inserted`, which now occupies the span up to
    /// `(ix2, iy2)`.
    Replace {
        x1: usize,
        y1: usize,
        dx2: usize,
        dy2: usize,
        ix2: usize,
        iy2: usize,
        deleted: TextBlock,
        inserted: TextBlock,
    },
}

/// The mathematical value of an action.
pub enum ActionSpec {
    Insert { x1: int, y1: int, x2: int, y2: int, text: Seq<Seq<Seq<char>>> },
    Delete { x1: int, y1: int, x2: int, y2: int, text: Seq<Seq<Seq<char>>> },
    Replace {
        x1: int,
        y1: int,
        dx2: int,
        dy2: int,
        ix2: int,
        iy2: int,
        deleted: Seq<Seq<Seq<char>>>,
        inserted: Seq<Seq<Seq<char>>>,
    },
}

impl Action {
    pub open spec fn model(&self) -> ActionSpec {
        match self {
            Action::Insert { x1, y1, x2, y2, text } => ActionSpec::Insert {
                x1: *x1 as int,
                y1: *y1 as int,
                x2: *x2 as int,
                y2: *y2 as int,
                text: text.model(),
            },
            Action::Delete { x1, y1, x2, y2, text } => ActionSpec::Delete {
                x1: *x1 as int,
                y1: *y1 as int,
                x2: *x2 as int,
                y2: *y2 as int,
                text: text.model(),
            },
            Action::Replace { x1, y1, dx2, dy2, ix2, iy2, deleted, inserted } => {
                ActionSpec::Replace {
                    x1: *x1 as int,
                    y1: *y1 as int,
                    dx2: *dx2 as int,
                    dy2: *dy2 as int,
                    ix2: *ix2 as int,
                    iy2: *iy2 as int,
                    deleted: deleted.model(),
                    inserted: inserted.model(),
                }
            },
        }
    }
}

/// The models of a stack of actions, oldest first.
pub open spec fn stack_model(v: Seq<Action>) -> Seq<ActionSpec> {
    Seq::new(v.len(), |i: int| v[i].model())
}

/// An action is internally consistent: its text is a non-empty block of
/// lines whose end position agrees with the recorded span.
pub open spec fn action_wf(a: ActionSpec) -> bool {
    match a {
        ActionSpec::Insert { x1, y1, x2, y2, text } => {
            &&& 0 <= x1 && 0 <= y1
            &&& text.len() >= 1
            &&& x2 == insert_end_x(x1, text)
            &&& y2 == insert_end_y(y1, text)
        },
        ActionSpec::Delete { x1, y1, x2, y2, text } => {
            &&& 0 <= x1 && 0 <= y1
            &&& text.len() >= 1
            &&& x2 == insert_end_x(x1, text)
            &&& y2 == insert_end_y(y1, text)
        },
        ActionSpec::Replace { x1, y1, dx2, dy2, ix2, iy2, deleted, inserted } => {
            &&& 0 <= x1 && 0 <= y1
            &&& deleted.len() >= 1
            &&& inserted.len() >= 1
            &&& dx2 == insert_end_x(x1, deleted)
            &&& dy2 == insert_end_y(y1, deleted)
            &&& ix2 == insert_end_x(x1, inserted)
            &&& iy2 == insert_end_y(y1, inserted)
        },
    }
}

/// The action can be applied backward to `doc`: its forward effect is
/// present there, exactly as recorded.
pub open spec fn undo_ok(doc: Seq<Seq<Seq<char>>>, a: ActionSpec) -> bool {
    match a {
        ActionSpec::Insert { x1, y1, x2, y2, text } => {
            span_valid(doc, x1, y1, x2, y2) && extract_block(doc, x1, y1, x2, y2) == text
        },
        ActionSpec::Delete { x1, y1, .. } => pos_valid(doc, x1, y1),
        ActionSpec::Replace { x1, y1, ix2, iy2, inserted, .. } => {
            span_valid(doc, x1, y1, ix2, iy2) && extract_block(doc, x1, y1, ix2, iy2) == inserted
        },
    }
}

/// The document with the action's effect taken back out.
pub open spec fn undo_step(doc: Seq<Seq<Seq<char>>>, a: ActionSpec) -> Seq<Seq<Seq<char>>> {
    match a {
        ActionSpec::Insert { x1, y1, x2, y2, .. } => splice_delete(doc, x1, y1, x2, y2),
        ActionSpec::Delete { x1, y1, text, .. } => splice_insert(doc, x1, y1, text),
        ActionSpec::Replace { x1, y1, ix2, iy2, deleted, .. } => {
            splice_insert(splice_delete(doc, x1, y1, ix2, iy2), x1, y1, deleted)
        },
    }
}

/// The action can be applied forward to `doc`: what it removes is present
/// there, exactly as recorded.
pub open spec fn redo_ok(doc: Seq<Seq<Seq<char>>>, a: ActionSpec) -> bool {
    match a {
        ActionSpec::Insert { x1, y1, .. } => pos_valid(doc, x1, y1),
        ActionSpec::Delete { x1, y1, x2, y2, text } => {
            span_valid(doc, x1, y1, x2, y2) && extract_block(doc, x1, y1, x2, y2) == text
        },
        ActionSpec::Replace { x1, y1, dx2, dy2, deleted, .. } => {
            span_valid(doc, x1, y1, dx2, dy2) && extract_block(doc, x1, y1, dx2, dy2) == deleted
        },
    }
}

/// The document with the action's effect applied again.
pub open spec fn redo_step(doc: Seq<Seq<Seq<char>>>, a: ActionSpec) -> Seq<Seq<Seq<char>>> {
    match a {
        ActionSpec::Insert { x1, y1, text, .. } => splice_insert(doc, x1, y1, text),
        ActionSpec::Delete { x1, y1, x2, y2, .. } => splice_delete(doc, x1, y1, x2, y2),
        ActionSpec::Replace { x1, y1, dx2, dy2, inserted, .. } => {
            splice_insert(splice_delete(doc, x1, y1, dx2, dy2), x1, y1, inserted)
        },
    }
}

/// Every action on the stack, taken from the top, is consistent and can be
/// applied backward to the document reached so far.
pub open spec fn undo_chain_ok(doc: Seq<Seq<Seq<char>>>, stack: Seq<ActionSpec>) -> bool
    decreases stack.len(),
{
    stack.len() == 0 || {
        &&& action_wf(stack.last())
        &&& undo_ok(doc, stack.last())
        &&& undo_chain_ok(undo_step(doc, stack.last()), stack.drop_last())
    }
}

/// Every action on the stack, taken from the top, is consistent and can be
/// applied forward to the document reached so far.
pub open spec fn redo_chain_ok(doc: Seq<Seq<Seq<char>>>, stack: Seq<ActionSpec>) -> bool
    decreases stack.len(),
{
    stack.len() == 0 || {
        &&& action_wf(stack.last())
        &&& redo_ok(doc, stack.last())
        &&& redo_chain_ok(redo_step(doc, stack.last()), stack.drop_last())
    }
}

/// The document with the whole undo stack applied backward: the state the
/// log was started from.
pub open spec fn rewind(doc: Seq<Seq<Seq<char>>>, stack: Seq<ActionSpec>) -> Seq<Seq<Seq<char>>>
    decreases stack.len(),
{
    if stack.len() == 0 {
        doc
    } else {
        rewind(undo_step(doc, stack.last()), stack.drop_last())
    }
}

/// The document with the whole redo stack applied forward: the fully edited
/// state the undos stepped back from.
pub open spec fn forward(doc: Seq<Seq<Seq<char>>>, stack: Seq<ActionSpec>) -> Seq<Seq<Seq<char>>>
    decreases stack.len(),
{
    if stack.len() == 0 {
        doc
    } else {
        forward(redo_step(doc, stack.last()), stack.drop_last())
    }
}

/// With an empty log both folds are the document itself: a buffer whose
/// undo stack has been drained holds exactly the base document that every
/// edit and undo preserved, and one whose redo stack has been drained holds
/// exactly the edited document that every undo and redo preserved.
pub proof fn lemma_empty_log_folds(doc: Seq<Seq<Seq<char>>>)
    ensures
        rewind(doc, Seq::<ActionSpec>::empty()) == doc,
        forward(doc, Seq::<ActionSpec>::empty()) == doc,
{
}

/// Recording one more action models as pushing its model.
pub proof fn lemma_stack_model_push(v: Seq<Action>, a: Action)
    ensures
        stack_model(v.push(a)) == stack_model(v).push(a.model()),
{
    assert(stack_model(v.push(a)) =~= stack_model(v).push(a.model()));
}

/// Taking the top action off a stack models as dropping the last model.
pub proof fn lemma_stack_model_drop(v: Seq<Action>)
    requires
        v.len() > 0,
    ensures
        stack_model(v.drop_last()) == stack_model(v).drop_last(),
        stack_model(v).last() == v.last().model(),
        stack_model(v).len() == v.len(),
{
    assert(stack_model(v.drop_last()) =~= stack_model(v).drop_last());
}

/// Pushing an action whose backward application leads to a document with a
/// valid chain keeps the chain valid and leaves the rewound base unchanged.
pub proof fn lemma_undo_chain_push(
    doc: Seq<Seq<Seq<char>>>,
    stack: Seq<ActionSpec>,
    a: ActionSpec,
    prev: Seq<Seq<Seq<char>>>,
)
    requires
        action_wf(a),
        undo_ok(doc, a),
        undo_step(doc, a) == prev,
        undo_chain_ok(prev, stack),
    ensures
        undo_chain_ok(doc, stack.push(a)),
        rewind(doc, stack.push(a)) == rewind(prev, stack),
{
    assert(stack.push(a).last() == a);
    assert(stack.push(a).drop_last() =~= stack);
}

/// Pushing an action whose forward application leads to a document with a
/// valid chain keeps the chain valid and leaves the edited end state
/// unchanged.
pub proof fn lemma_redo_chain_push(
    doc: Seq<Seq<Seq<char>>>,
    stack: Seq<ActionSpec>,
    a: ActionSpec,
    prev: Seq<Seq<Seq<char>>>,
)
    requires
        action_wf(a),
        redo_ok(doc, a),
        redo_step(doc, a) == prev,
        redo_chain_ok(prev, stack),
    ensures
        redo_chain_ok(doc, stack.push(a)),
        forward(doc, stack.push(a)) == forward(prev, stack),
{
    assert(stack.push(a).last() == a);
    assert(stack.push(a).drop_last() =~= stack);
}

/// Undoing an action can always be redone, and redoing it restores the
/// document the undo started from. The document also stays non-empty.
pub proof fn lemma_undo_then_redo(doc: Seq<Seq<Seq<char>>>, a: ActionSpec)
    requires
        action_wf(a),
        undo_ok(doc, a),
        doc.len() >= 1,
    ensures
        undo_step(doc, a).len() >= 1,
        redo_ok(undo_step(doc, a), a),
        redo_step(undo_step(doc, a), a) == doc,
{
    match a {
        ActionSpec::Insert { x1, y1, x2, y2, text } => {
            lemma_delete_then_insert(doc, x1, y1, x2, y2);
            assert(redo_step(undo_step(doc, a), a) =~~= doc);
        },
        ActionSpec::Delete { x1, y1, x2, y2, text } => {
            lemma_insert_then_delete(doc, x1, y1, text);
            assert(redo_step(undo_step(doc, a), a) =~~= doc);
        },
        ActionSpec::Replace { x1, y1, dx2, dy2, ix2, iy2, deleted, inserted } => {
            let mid = splice_delete(doc, x1, y1, ix2, iy2);
            lemma_delete_then_insert(doc, x1, y1, ix2, iy2);
            lemma_insert_then_delete(mid, x1, y1, deleted);
            assert(splice_delete(undo_step(doc, a), x1, y1, dx2, dy2) =~~= mid);
            assert(redo_step(undo_step(doc, a), a) =~~= doc);
        },
    }
}

/// Redoing an action can always be undone, and undoing it restores the
/// document the redo started from. The document also stays non-empty.
pub proof fn lemma_redo_then_undo(doc: Seq<Seq<Seq<char>>>, a: ActionSpec)
    requires
        action_wf(a),
        redo_ok(doc, a),
        doc.len() >= 1,
    ensures
        redo_step(doc, a).len() >= 1,
        undo_ok(redo_step(doc, a), a),
        undo_step(redo_step(doc, a), a) == doc,
{
    match a {
        ActionSpec::Insert { x1, y1, x2, y2, text } => {
            lemma_insert_then_delete(doc, x1, y1, text);
            assert(undo_step(redo_step(doc, a), a) =~~= doc);
        },
        ActionSpec::Delete { x1, y1, x2, y2, text } => {
            lemma_delete_then_insert(doc, x1, y1, x2, y2);
            assert(undo_step(redo_step(doc, a), a) =~~= doc);
        },
        ActionSpec::Replace { x1, y1, dx2, dy2, ix2, iy2, deleted, inserted } => {
            let mid = splice_delete(doc, x1, y1, dx2, dy2);
            lemma_delete_then_insert(doc, x1, y1, dx2, dy2);
            lemma_insert_then_delete(mid, x1, y1, inserted);
            assert(splice_delete(redo_step(doc, a), x1, y1, ix2, iy2) =~~= mid);
            assert(undo_step(redo_step(doc, a), a) =~~= doc);
        },
    }
}

} // verus!
