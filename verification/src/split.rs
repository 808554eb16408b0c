//! The split of a clip in two. The part before the split point is cut out
//! first; the part after it is cut out only when that has succeeded, and the
//! split has succeeded only when both have.

use crate::args::{split, split_left_args, split_outside, split_right_args, split_too_short};
use crate::error::{plain_failure, ErrorKind, ErrorView, Stage};
use crate::export::{
    failed, finishes, no_paths, unexpected, unexpected_event, Action, ActionView, Event,
    EventView,
};
use crate::runner::{check_exit, exit_result, succeeded, OutcomeView};
use crate::seconds::Seconds;
use vstd::prelude::*;
use vstd::string::*;

verus! {

/// Where a split stands.
#[derive(Clone, Copy, Debug, PartialEq, Eq, Structural)]
pub enum SplitPhase {
    /// The part before the split point is being cut out.
    Left,
    /// The part after the split point is being cut out.
    Right,
    /// The split is over.
    Done,
}

/// What a split is asked to do.
pub struct SplitPlan {
    /// The clip.
    pub input: Seq<char>,
    /// The split point, in microseconds from the start of the clip.
    pub split: int,
    /// Where the part before the split point goes.
    pub left_output: Seq<char>,
    /// Where the part after the split point goes.
    pub right_output: Seq<char>,
    /// The length of the clip, in microseconds.
    pub total: int,
}

/// A split: what it is asked to do, and where it stands.
pub struct SplitView {
    pub plan: SplitPlan,
    pub phase: SplitPhase,
}

/// The split of one clip in two.
pub struct SplitExport {
    input: String,
    split_time: Seconds,
    left_output: String,
    right_output: String,
    total: Seconds,
    phase: SplitPhase,
}

impl View for SplitExport {
    type V = SplitView;

    closed spec fn view(&self) -> SplitView {
        SplitView {
            plan: SplitPlan {
                input: self.input@,
                split: self.split_time.micros as int,
                left_output: self.left_output@,
                right_output: self.right_output@,
                total: self.total.micros as int,
            },
            phase: self.phase,
        }
    }
}

/// Why a split is refused, where it is: the split point is not inside the
/// clip, or one of the parts would be shorter than a fifth of a second.
pub open spec fn split_refusal(plan: SplitPlan) -> Option<ErrorView> {
    if split_outside(plan.split, plan.total) {
        Some(plain_failure(ErrorKind::Validation, "Invalid split time"@))
    } else if split_too_short(plan.split, plan.total) {
        Some(
            plain_failure(
                ErrorKind::Validation,
                "Split would create segments too short (< 0.2s)"@,
            ),
        )
    } else {
        None
    }
}

/// The invocation that cuts the part before the split point out.
pub open spec fn left_action(plan: SplitPlan) -> ActionView {
    ActionView::Run {
        stage: Stage::SplitLeft,
        args: split_left_args(plan.input, plan.split, plan.left_output),
    }
}

/// The invocation that cuts the part after the split point out.
pub open spec fn right_action(plan: SplitPlan) -> ActionView {
    ActionView::Run {
        stage: Stage::SplitRight,
        args: split_right_args(plan.input, plan.split, plan.total, plan.right_output),
    }
}

/// How a split begins: with a validation error where it is refused, before
/// anything is invoked, else with the cut of the left part.
pub open spec fn split_start(plan: SplitPlan) -> (SplitPhase, ActionView) {
    match split_refusal(plan) {
        Some(error) => (SplitPhase::Done, failed(error, Seq::<Seq<char>>::empty())),
        None => (SplitPhase::Left, left_action(plan)),
    }
}

/// How a split goes on: the phase it enters and the action it hands out when
/// `event` arrives in `phase`. A failed cut ends the split with its failure;
/// the split ends with success, and exit code 0, after the second cut has
/// succeeded.
pub open spec fn split_step(plan: SplitPlan, phase: SplitPhase, event: EventView) -> (
    SplitPhase,
    ActionView,
) {
    let none = Seq::<Seq<char>>::empty();
    match (phase, event) {
        (SplitPhase::Left, EventView::Process(outcome)) => match exit_result(
            Stage::SplitLeft,
            outcome,
        ) {
            Ok(_) => (SplitPhase::Right, right_action(plan)),
            Err(error) => (SplitPhase::Done, failed(error, none)),
        },
        (SplitPhase::Right, EventView::Process(outcome)) => (
            SplitPhase::Done,
            ActionView::Finish { result: exit_result(Stage::SplitRight, outcome), cleanup: none },
        ),
        _ => (SplitPhase::Done, failed(unexpected_event(), none)),
    }
}

/// The actions that a split hands out in answer to `events`, one for each
/// event, when the first of them arrives in `phase`.
pub open spec fn split_run(plan: SplitPlan, phase: SplitPhase, events: Seq<EventView>) -> Seq<
    ActionView,
>
    decreases events.len(),
{
    if events.len() == 0 {
        Seq::<ActionView>::empty()
    } else {
        let (next, action) = split_step(plan, phase, events[0]);
        seq![action] + split_run(plan, next, events.drop_first())
    }
}

/// All the actions of a split whose driver reports `events`: the first
/// action, and one in answer to each event.
pub open spec fn split_actions(plan: SplitPlan, events: Seq<EventView>) -> Seq<ActionView> {
    seq![split_start(plan).1] + split_run(plan, split_start(plan).0, events)
}

proof fn lemma_over_stays_over(plan: SplitPlan, events: Seq<EventView>)
    ensures
        split_run(plan, SplitPhase::Done, events).len() == events.len(),
        forall|i: int|
            0 <= i < events.len() ==> #[trigger] split_run(plan, SplitPhase::Done, events)[i]
                == failed(unexpected_event(), Seq::<Seq<char>>::empty()),
    decreases events.len(),
{
    if events.len() > 0 {
        lemma_over_stays_over(plan, events.drop_first());
    }
}

/// A split that is refused ends at once with its validation error, and
/// invokes nothing, whatever its driver reports.
pub proof fn law_refused_split_invokes_nothing(plan: SplitPlan, events: Seq<EventView>)
    requires
        split_outside(plan.split, plan.total) || split_too_short(plan.split, plan.total),
    ensures
        split_refusal(plan) is Some,
        split_refusal(plan)->Some_0.kind == ErrorKind::Validation,
        split_actions(plan, events)[0] == failed(
            split_refusal(plan)->Some_0,
            Seq::<Seq<char>>::empty(),
        ),
        forall|i: int|
            0 <= i < split_actions(plan, events).len() ==> finishes(
                #[trigger] split_actions(plan, events)[i],
            ),
{
    lemma_over_stays_over(plan, events);
    let run = split_run(plan, SplitPhase::Done, events);
    let all = split_actions(plan, events);
    assert forall|i: int| 0 <= i < all.len() implies finishes(#[trigger] all[i]) by {
        if i > 0 {
            assert(all[i] == run[i - 1]);
        }
    }
}

/// Where the cut of the left part fails, the split ends with that failure:
/// the right part is never cut, whatever the driver reports after that.
pub proof fn law_failed_left_ends_split(
    plan: SplitPlan,
    left: OutcomeView,
    events: Seq<EventView>,
)
    requires
        split_refusal(plan) is None,
        !succeeded(left),
    ensures
        ({
            let actions = split_actions(plan, seq![EventView::Process(left)] + events);
            &&& actions.len() == events.len() + 2
            &&& actions[0] == left_action(plan)
            &&& actions[1] == ActionView::Finish {
                result: exit_result(Stage::SplitLeft, left),
                cleanup: Seq::<Seq<char>>::empty(),
            }
            &&& exit_result(Stage::SplitLeft, left) is Err
            &&& forall|i: int| 1 <= i < actions.len() ==> finishes(#[trigger] actions[i])
        }),
{
    let first = EventView::Process(left);
    let all = seq![first] + events;
    let (next, action) = split_step(plan, SplitPhase::Left, first);
    let tail = split_run(plan, next, events);
    assert(all.drop_first() =~= events);
    assert(split_run(plan, SplitPhase::Left, all) == seq![action] + tail);
    lemma_over_stays_over(plan, events);
    let actions = split_actions(plan, all);
    assert(actions =~= seq![left_action(plan), action] + tail);
    assert forall|i: int| 1 <= i < actions.len() implies finishes(#[trigger] actions[i]) by {
        if i >= 2 {
            assert(actions[i] == tail[i - 2]);
        }
    }
}

/// Where the cut of the left part succeeds, the right part is cut next, and
/// what that cut gives is what the split returns: success, with exit code 0,
/// only where both cuts have succeeded.
pub proof fn law_right_follows_left(plan: SplitPlan, left: OutcomeView, right: OutcomeView)
    requires
        split_refusal(plan) is None,
        succeeded(left),
    ensures
        split_actions(plan, seq![EventView::Process(left), EventView::Process(right)]) == seq![
            left_action(plan),
            right_action(plan),
            ActionView::Finish {
                result: exit_result(Stage::SplitRight, right),
                cleanup: Seq::<Seq<char>>::empty(),
            },
        ],
        exit_result(Stage::SplitRight, right) is Ok <==> succeeded(right),
        exit_result(Stage::SplitRight, right) is Ok ==> exit_result(Stage::SplitRight, right)
            == Ok::<i32, ErrorView>(0i32),
{
    let e1 = EventView::Process(left);
    let e2 = EventView::Process(right);
    let (s1, a1) = split_step(plan, SplitPhase::Left, e1);
    let (s2, a2) = split_step(plan, s1, e2);
    assert(seq![e1, e2].drop_first() =~= seq![e2]);
    assert(seq![e2].drop_first() =~= Seq::<EventView>::empty());
    assert(split_run(plan, s2, Seq::<EventView>::empty()) =~= Seq::<ActionView>::empty());
    assert(split_run(plan, s1, seq![e2]) =~= seq![a2]);
    assert(split_run(plan, SplitPhase::Left, seq![e1, e2]) =~= seq![a1, a2]);
    assert(split_actions(plan, seq![e1, e2]) =~= seq![left_action(plan), a1, a2]);
}

impl SplitExport {
    #[verifier::type_invariant]
    spec fn well_formed(self) -> bool {
        self.phase is Left || self.phase is Right ==> !split_outside(
            self.split_time.micros as int,
            self.total.micros as int,
        ) && !split_too_short(self.split_time.micros as int, self.total.micros as int)
    }

    /// The split of `input`, which is `total` long, at `split_time`, with the
    /// part before it going to `left_output` and the part after it to
    /// `right_output`; and the first action.
    pub fn start(
        input: String,
        split_time: Seconds,
        left_output: String,
        right_output: String,
        total: Seconds,
    ) -> (r: (SplitExport, Action))
        ensures
            r.0@.plan == (SplitPlan {
                input: input@,
                split: split_time.micros as int,
                left_output: left_output@,
                right_output: right_output@,
                total: total.micros as int,
            }),
            (r.0@.phase, r.1@) == split_start(r.0@.plan),
    {
        let planned = split(
            input.as_str(),
            split_time,
            left_output.as_str(),
            right_output.as_str(),
            total,
        );
        match planned {
            Ok(parts) => {
                let export = SplitExport {
                    input,
                    split_time,
                    left_output,
                    right_output,
                    total,
                    phase: SplitPhase::Left,
                };
                (export, Action::Run { stage: Stage::SplitLeft, args: parts.0 })
            },
            Err(error) => {
                let export = SplitExport {
                    input,
                    split_time,
                    left_output,
                    right_output,
                    total,
                    phase: SplitPhase::Done,
                };
                (export, Action::Finish { result: Err(error), cleanup: no_paths() })
            },
        }
    }

    /// Takes the event that answers the action handed out last, and hands out
    /// the next action.
    pub fn step(&mut self, event: &Event) -> (action: Action)
        ensures
            final(self)@.plan == old(self)@.plan,
            (final(self)@.phase, action@) == split_step(
                old(self)@.plan,
                old(self)@.phase,
                event@,
            ),
    {
        proof {
            use_type_invariant(&*self);
        }
        let phase = self.phase;
        match (phase, event) {
            (SplitPhase::Left, Event::Process(outcome)) => {
                let cut = check_exit(Stage::SplitLeft, outcome);
                let planned = split(
                    self.input.as_str(),
                    self.split_time,
                    self.left_output.as_str(),
                    self.right_output.as_str(),
                    self.total,
                );
                match (cut, planned) {
                    (Ok(_), Ok(parts)) => {
                        self.phase = SplitPhase::Right;
                        Action::Run { stage: Stage::SplitRight, args: parts.1 }
                    },
                    (Err(error), _) => {
                        self.phase = SplitPhase::Done;
                        Action::Finish { result: Err(error), cleanup: no_paths() }
                    },
                    (Ok(_), Err(error)) => {
                        self.phase = SplitPhase::Done;
                        Action::Finish { result: Err(error), cleanup: no_paths() }
                    },
                }
            },
            (SplitPhase::Right, Event::Process(outcome)) => {
                let result = check_exit(Stage::SplitRight, outcome);
                self.phase = SplitPhase::Done;
                Action::Finish { result, cleanup: no_paths() }
            },
            _ => {
                self.phase = SplitPhase::Done;
                Action::Finish { result: Err(unexpected()), cleanup: no_paths() }
            },
        }
    }

    /// Where the split stands.
    pub fn phase(&self) -> (phase: SplitPhase)
        ensures
            phase == self@.phase,
    {
        self.phase
    }
}

} // verus!
