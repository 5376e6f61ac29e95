//! Laws of the folder over whole event sequences.

use vstd::prelude::*;
use crate::event::{Direction, EventModel};
use crate::folder::{spec_step, OutcomeModel};
use crate::render::render_stack;

verus! {

/// Running the folder over a whole event sequence from a given stack: the
/// final stack and the number of emitted lines, or `None` as soon as one
/// step reports an error.
pub open spec fn spec_run(stack: Seq<EventModel>, events: Seq<EventModel>) -> Option<
    (Seq<EventModel>, nat),
>
    decreases events.len(),
{
    if events.len() == 0 {
        Option::Some((stack, 0))
    } else {
        let m = spec_step(stack, events[0]);
        if m.outcome is Unbalanced || m.outcome is Mismatch || m.outcome is Underflow {
            Option::None
        } else {
            match spec_run(m.stack, events.skip(1)) {
                Option::None => Option::None,
                Option::Some(p) => Option::Some(
                    (p.0, p.1 + if m.outcome is Emit {
                        1nat
                    } else {
                        0nat
                    }),
                ),
            }
        }
    }
}

/// A properly nested event sequence: a concatenation of complete
/// activations, each an enter followed by a properly nested body and the
/// matching exit, whose activation id equals the enter's and whose
/// timestamp is no earlier.
pub open spec fn is_balanced(events: Seq<EventModel>) -> bool
    decreases events.len(),
{
    events.len() == 0 || (events[0].direction == Direction::Enter && exists|j: int|
        1 <= j < events.len() && (#[trigger] events[j]).direction == Direction::Exit
            && events[j].activation_id == events[0].activation_id && events[j].timestamp
            >= events[0].timestamp && is_balanced(events.subrange(1, j)) && is_balanced(
            events.skip(j + 1),
        ))
}

/// The number of exit events that close at nesting depth two or more when
/// the walk starts at depth `depth`: exactly the exits whose matching enter
/// is not the outermost open frame, hence the steps that emit a line.
pub open spec fn deep_exit_count(events: Seq<EventModel>, depth: int) -> nat
    decreases events.len(),
{
    if events.len() == 0 {
        0
    } else if events[0].direction == Direction::Enter {
        deep_exit_count(events.skip(1), depth + 1)
    } else {
        (if depth >= 2 {
            1nat
        } else {
            0nat
        }) + deep_exit_count(events.skip(1), depth - 1)
    }
}

/// The net number of frames a sequence opens: enters minus exits.
pub open spec fn depth_delta(events: Seq<EventModel>) -> int
    decreases events.len(),
{
    if events.len() == 0 {
        0
    } else if events[0].direction == Direction::Enter {
        1 + depth_delta(events.skip(1))
    } else {
        -1 + depth_delta(events.skip(1))
    }
}

pub proof fn lemma_spec_run_concat(stack: Seq<EventModel>, a: Seq<EventModel>, b: Seq<EventModel>)
    ensures
        spec_run(stack, a + b) == (match spec_run(stack, a) {
            Option::None => Option::<(Seq<EventModel>, nat)>::None,
            Option::Some(p) => match spec_run(p.0, b) {
                Option::None => Option::<(Seq<EventModel>, nat)>::None,
                Option::Some(q) => Option::Some((q.0, (p.1 + q.1) as nat)),
            },
        }),
    decreases a.len(),
{
    if a.len() == 0 {
        assert(a + b =~= b);
    } else {
        let m = spec_step(stack, a[0]);
        assert((a + b)[0] == a[0]);
        assert((a + b).skip(1) =~= a.skip(1) + b);
        if !(m.outcome is Unbalanced || m.outcome is Mismatch || m.outcome is Underflow) {
            lemma_spec_run_concat(m.stack, a.skip(1), b);
        }
    }
}

pub proof fn lemma_deep_exit_count_concat(a: Seq<EventModel>, b: Seq<EventModel>, depth: int)
    ensures
        deep_exit_count(a + b, depth) == deep_exit_count(a, depth) + deep_exit_count(
            b,
            depth + depth_delta(a),
        ),
    decreases a.len(),
{
    if a.len() == 0 {
        assert(a + b =~= b);
    } else {
        assert((a + b)[0] == a[0]);
        assert((a + b).skip(1) =~= a.skip(1) + b);
        if a[0].direction == Direction::Enter {
            lemma_deep_exit_count_concat(a.skip(1), b, depth + 1);
        } else {
            lemma_deep_exit_count_concat(a.skip(1), b, depth - 1);
        }
    }
}

pub proof fn lemma_depth_delta_concat(a: Seq<EventModel>, b: Seq<EventModel>)
    ensures
        depth_delta(a + b) == depth_delta(a) + depth_delta(b),
    decreases a.len(),
{
    if a.len() == 0 {
        assert(a + b =~= b);
    } else {
        assert((a + b)[0] == a[0]);
        assert((a + b).skip(1) =~= a.skip(1) + b);
        lemma_depth_delta_concat(a.skip(1), b);
    }
}

/// A properly nested sequence opens exactly as many frames as it closes.
pub proof fn lemma_balanced_delta(events: Seq<EventModel>)
    requires
        is_balanced(events),
    ensures
        depth_delta(events) == 0,
    decreases events.len(),
{
    if events.len() > 0 {
        let j = choose|j: int|
            1 <= j < events.len() && (#[trigger] events[j]).direction == Direction::Exit
                && events[j].activation_id == events[0].activation_id && events[j].timestamp
                >= events[0].timestamp && is_balanced(events.subrange(1, j)) && is_balanced(
                events.skip(j + 1),
            );
        let e0 = events[0];
        let body = events.subrange(1, j);
        let ex = events[j];
        let rest = events.skip(j + 1);
        lemma_balanced_delta(body);
        lemma_balanced_delta(rest);
        assert(events =~= seq![e0] + (body + (seq![ex] + rest)));
        lemma_depth_delta_concat(seq![e0], body + (seq![ex] + rest));
        lemma_depth_delta_concat(body, seq![ex] + rest);
        lemma_depth_delta_concat(seq![ex], rest);
        assert(seq![e0].skip(1) =~= Seq::<EventModel>::empty());
        assert(seq![ex].skip(1) =~= Seq::<EventModel>::empty());
        assert(depth_delta(Seq::<EventModel>::empty()) == 0);
        assert(seq![e0][0] == e0 && e0.direction == Direction::Enter);
        assert(seq![ex][0] == ex && ex.direction == Direction::Exit);
        assert(depth_delta(seq![e0]) == 1);
        assert(depth_delta(seq![ex]) == -1);
    }
}

/// Balance law. Over a properly nested input the folder reports no error,
/// the call stack returns exactly to its starting state at end of input,
/// and the number of emitted lines is the number of exit events whose
/// matching enter was not the outermost open frame when it closed.
pub proof fn lemma_balanced_run(stack: Seq<EventModel>, events: Seq<EventModel>)
    requires
        is_balanced(events),
    ensures
        spec_run(stack, events) == Option::Some(
            (stack, deep_exit_count(events, stack.len() as int)),
        ),
    decreases events.len(),
{
    if events.len() > 0 {
        let j = choose|j: int|
            1 <= j < events.len() && (#[trigger] events[j]).direction == Direction::Exit
                && events[j].activation_id == events[0].activation_id && events[j].timestamp
                >= events[0].timestamp && is_balanced(events.subrange(1, j)) && is_balanced(
                events.skip(j + 1),
            );
        let e0 = events[0];
        let body = events.subrange(1, j);
        let ex = events[j];
        let rest = events.skip(j + 1);
        let st1 = stack.push(e0);
        let d = stack.len() as int;

        // The run: push the enter, run the body back to st1, pop the exit,
        // run the remainder.
        lemma_balanced_run(st1, body);
        lemma_balanced_run(stack, rest);
        assert(st1.last() == e0);
        assert(st1.drop_last() =~= stack);
        let emit_outer: nat = if stack.len() > 0 {
            1nat
        } else {
            0nat
        };
        assert(seq![ex].skip(1) =~= Seq::<EventModel>::empty());
        assert((seq![ex] + rest)[0] == ex);
        assert((seq![ex] + rest).skip(1) =~= rest);
        assert(spec_run(st1, seq![ex] + rest) == Option::Some(
            (stack, (deep_exit_count(rest, d) + emit_outer) as nat),
        ));
        lemma_spec_run_concat(st1, body, seq![ex] + rest);
        assert(events.skip(1) =~= body + (seq![ex] + rest));
        assert(spec_run(stack, events) == Option::Some(
            (
                stack,
                (deep_exit_count(body, d + 1) + deep_exit_count(rest, d) + emit_outer) as nat,
            ),
        ));

        // The count walks the same decomposition.
        lemma_balanced_delta(body);
        lemma_deep_exit_count_concat(body, seq![ex] + rest, d + 1);
        assert(deep_exit_count(seq![ex] + rest, d + 1) == emit_outer + deep_exit_count(rest, d));
        assert(deep_exit_count(events, d) == deep_exit_count(body, d + 1) + deep_exit_count(
            seq![ex] + rest,
            d + 1,
        ));
    }
}

/// Duration and ordering law for one matched, emitting exit: the emitted
/// duration is exactly the difference of the two timestamps, and the
/// emitted frames are the remaining open ancestors rendered outermost
/// first.
pub proof fn lemma_matched_exit(stack: Seq<EventModel>, e: EventModel)
    requires
        e.direction == Direction::Exit,
        stack.len() >= 2,
        stack.last().activation_id == e.activation_id,
        stack.last().timestamp <= e.timestamp,
    ensures
        spec_step(stack, e).stack == stack.drop_last(),
        spec_step(stack, e).outcome == (OutcomeModel::Emit {
            frames: render_stack(stack.drop_last()),
            duration: (e.timestamp - stack.last().timestamp) as u64,
        }),
{
}

} // verus!
