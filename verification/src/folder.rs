//! The stack folder: matches enter/exit events by activation identity,
//! computes per-frame durations, and emits folded-stack output lines.

use vstd::prelude::*;
use crate::decode::{decode_line, spec_decode};
use crate::event::{Direction, Event, EventModel, FoldError, TraceError};
use crate::render::{dec_string, print_stack_names, render_stack, u64_to_string};

verus! {

/// One folded output line, ready for printing: the rendered ancestor frames
/// (each `;probe_name:filename:location`, outermost first) and the matched
/// activation's elapsed time in nanoseconds.
#[derive(Debug)]
pub struct OutputLine {
    pub frames: String,
    pub duration: u64,
}

impl OutputLine {
    /// The full text of the line: the rendered frames, one space, and the
    /// duration in decimal.
    pub fn to_line(&self) -> (r: String)
        ensures
            r@ == self.frames@ + seq![' '] + dec_string(self.duration as nat),
    {
        let mut r = self.frames.clone();
        r.append(" ");
        let dur = u64_to_string(self.duration);
        r.append(dur.as_str());
        proof {
            reveal_strlit(" ");
            assert(" "@ =~= seq![' ']);
            assert(r@ =~= self.frames@ + seq![' '] + dec_string(self.duration as nat));
        }
        r
    }
}

/// What one folding step does, in the model: the stack after the step and
/// what the step emits or reports.
pub struct StepModel {
    pub stack: Seq<EventModel>,
    pub outcome: OutcomeModel,
}

pub enum OutcomeModel {
    /// Nothing emitted: an enter was pushed, or the outermost frame closed.
    Quiet,
    /// One folded line emitted for a completed non-outermost activation.
    Emit { frames: Seq<char>, duration: u64 },
    /// An exit arrived while no activation was open.
    Unbalanced,
    /// An exit whose activation id is not the innermost open enter's.
    Mismatch,
    /// A matched exit whose timestamp precedes its enter's.
    Underflow,
}

/// The folder's single step. An enter event is pushed onto the stack. An
/// exit event must match the innermost open enter by activation id and
/// carry a timestamp at least the enter's; it then pops that enter, and,
/// when ancestor frames remain, emits their folded rendering together with
/// the elapsed duration `exit.timestamp - enter.timestamp`. Every violation
/// of the stack discipline leaves the stack unchanged, so the state stays
/// inspectable.
pub open spec fn spec_step(stack: Seq<EventModel>, e: EventModel) -> StepModel {
    if e.direction == Direction::Enter {
        StepModel { stack: stack.push(e), outcome: OutcomeModel::Quiet }
    } else if stack.len() == 0 {
        StepModel { stack, outcome: OutcomeModel::Unbalanced }
    } else if stack.last().activation_id != e.activation_id {
        StepModel { stack, outcome: OutcomeModel::Mismatch }
    } else if e.timestamp < stack.last().timestamp {
        StepModel { stack, outcome: OutcomeModel::Underflow }
    } else {
        let rest = stack.drop_last();
        StepModel {
            stack: rest,
            outcome: if rest.len() == 0 {
                OutcomeModel::Quiet
            } else {
                OutcomeModel::Emit {
                    frames: render_stack(rest),
                    duration: (e.timestamp - stack.last().timestamp) as u64,
                }
            },
        }
    }
}

/// The stack folder. It owns the call stack of currently-open enter events
/// (outermost first, innermost last) and the count of raw input lines
/// processed so far; nothing else reads or mutates either.
pub struct Folder {
    pub stack: Vec<Event>,
    pub lines: u64,
}

impl Folder {
    /// The open call stack in the model: outermost first, innermost last.
    pub open spec fn stack_model(&self) -> Seq<EventModel> {
        self.stack.deep_view()
    }

    /// A folder with no open activation and no line seen yet.
    pub fn new() -> (r: Folder)
        ensures
            r.stack_model() == Seq::<EventModel>::empty(),
            r.lines == 0,
    {
        let r = Folder { stack: Vec::new(), lines: 0 };
        proof {
            assert(r.stack_model() =~= Seq::<EventModel>::empty());
        }
        r
    }

    /// Feeds one decoded event to the folder. The stack and the result are
    /// exactly what [`spec_step`] says for the old stack and the event; a
    /// fold error carries the offending records and leaves the stack as it
    /// was.
    pub fn handle(&mut self, event: Event) -> (r: Result<Option<OutputLine>, FoldError>)
        ensures
            final(self).lines == old(self).lines,
            ({
                let m = spec_step(old(self).stack_model(), event.deep_view());
                final(self).stack_model() == m.stack && match r {
                    Result::Ok(Option::None) => m.outcome == OutcomeModel::Quiet,
                    Result::Ok(Option::Some(out)) => m.outcome == (OutcomeModel::Emit {
                        frames: out.frames@,
                        duration: out.duration,
                    }),
                    Result::Err(FoldError::UnbalancedExit { exit }) => m.outcome
                        == OutcomeModel::Unbalanced && exit.deep_view() == event.deep_view(),
                    Result::Err(FoldError::MismatchedActivation { enter, exit }) => m.outcome
                        == OutcomeModel::Mismatch && enter.deep_view() == old(
                        self,
                    ).stack_model().last() && exit.deep_view() == event.deep_view(),
                    Result::Err(FoldError::DurationUnderflow { enter, exit }) => m.outcome
                        == OutcomeModel::Underflow && enter.deep_view() == old(
                        self,
                    ).stack_model().last() && exit.deep_view() == event.deep_view(),
                }
            }),
    {
        let ghost old_stack = self.stack.deep_view();
        if event.direction == Direction::Enter {
            let ghost ev = event.deep_view();
            self.stack.push(event);
            proof {
                assert(self.stack.deep_view() =~= old_stack.push(ev));
            }
            Result::Ok(Option::None)
        } else {
            if self.stack.len() == 0 {
                proof {
                    assert(self.stack.deep_view() =~= old_stack);
                }
                return Result::Err(FoldError::UnbalancedExit { exit: event });
            }
            let in_event = self.stack.pop().unwrap();
            proof {
                assert(in_event.deep_view() == old_stack.last());
                assert(self.stack.deep_view() =~= old_stack.drop_last());
            }
            if in_event.activation_id != event.activation_id {
                let enter = in_event.clone();
                self.stack.push(in_event);
                proof {
                    assert(self.stack.deep_view() =~= old_stack);
                }
                return Result::Err(FoldError::MismatchedActivation { enter, exit: event });
            }
            if event.timestamp < in_event.timestamp {
                let enter = in_event.clone();
                self.stack.push(in_event);
                proof {
                    assert(self.stack.deep_view() =~= old_stack);
                }
                return Result::Err(FoldError::DurationUnderflow { enter, exit: event });
            }
            let duration = event.timestamp - in_event.timestamp;
            if self.stack.len() > 0 {
                let frames = print_stack_names(&self.stack);
                Result::Ok(Option::Some(OutputLine { frames, duration }))
            } else {
                Result::Ok(Option::None)
            }
        }
    }

    /// Counts one raw input line, decodes it, and feeds the event to the
    /// folder. The line's 1-based number, used in diagnostics, is the
    /// incremented line counter. A decode error leaves the stack unchanged;
    /// otherwise stack and result are what [`spec_step`] says for the
    /// decoded event.
    pub fn process_line(&mut self, line: &str) -> (r: Result<Option<OutputLine>, TraceError>)
        requires
            old(self).lines < u64::MAX,
        ensures
            final(self).lines == old(self).lines + 1,
            ({
                let ln = (old(self).lines + 1) as u64;
                match spec_decode(line@, ln) {
                    Result::Err(de) => final(self).stack_model() == old(self).stack_model() && (
                    r matches Result::Err(TraceError::Decode(d)) && d == de),
                    Result::Ok(em) => {
                        let m = spec_step(old(self).stack_model(), em);
                        final(self).stack_model() == m.stack && match r {
                            Result::Ok(Option::None) => m.outcome == OutcomeModel::Quiet,
                            Result::Ok(Option::Some(out)) => m.outcome == (OutcomeModel::Emit {
                                frames: out.frames@,
                                duration: out.duration,
                            }),
                            Result::Err(TraceError::Fold(FoldError::UnbalancedExit { exit })) => m
                                .outcome == OutcomeModel::Unbalanced && exit.deep_view() == em,
                            Result::Err(
                                TraceError::Fold(FoldError::MismatchedActivation { enter, exit }),
                            ) => m.outcome == OutcomeModel::Mismatch && enter.deep_view() == old(
                                self,
                            ).stack_model().last() && exit.deep_view() == em,
                            Result::Err(
                                TraceError::Fold(FoldError::DurationUnderflow { enter, exit }),
                            ) => m.outcome == OutcomeModel::Underflow && enter.deep_view() == old(
                                self,
                            ).stack_model().last() && exit.deep_view() == em,
                            Result::Err(TraceError::Decode(_)) => false,
                        }
                    },
                }
            }),
    {
        self.lines = self.lines + 1;
        let line_number = self.lines;
        match decode_line(line, line_number) {
            Result::Err(de) => Result::Err(TraceError::Decode(de)),
            Result::Ok(ev) => match self.handle(ev) {
                Result::Ok(o) => Result::Ok(o),
                Result::Err(fe) => Result::Err(TraceError::Fold(fe)),
            },
        }
    }
}

} // verus!
