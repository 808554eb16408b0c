//! The crossfade merger. It merges a sequence of clips into one, each next
//! clip joined to what was merged so far by one crossfade, and finalizes the
//! result at the export's resolution.
//!
//! A single clip is encoded directly. For more, the merged part so far (at
//! first the first clip) is probed for its duration, merged with the next
//! clip into an intermediate file, and that file is the merged part from then
//! on. After the last merge the last intermediate is scaled, or copied where
//! no scaling is asked for. Every action that ends the export lists the
//! intermediate files that may exist by then, for removal.

use crate::args::{
    crossfade, crossfade_args, crossfade_offset, encode, encode_args, offset_of_crossfade, probe,
    probe_args, remux, remux_args,
};
use crate::error::{plain_failure, ErrorKind, ErrorView, ExportError, Stage};
use crate::export::{
    count_runs, failed, finishes, finishes_well, no_paths, unexpected, unexpected_event, Action,
    ActionView, Event, EventView,
};
use crate::probe::{probe_duration, probe_result};
use crate::resolution::{target_height, Resolution};
use crate::runner::{check_exit, exit_result, OutcomeView};
use crate::seconds::Seconds;
use crate::text::{child_path, decimal, join_path, push_decimal, push_owned};
use vstd::prelude::*;
use vstd::string::*;

verus! {

/// Where a crossfade export stands.
#[derive(Clone, Copy, Debug, PartialEq, Eq, Structural)]
pub enum CrossfadePhase {
    /// The only clip is being encoded.
    Single,
    /// The merged part is being probed, before input `next` is merged to it.
    Probing { next: usize },
    /// Input `next` is being merged to the merged part.
    Merging { next: usize },
    /// The last intermediate is being scaled or copied to the output.
    Finalizing,
    /// The export is over.
    Done,
}

/// What a crossfade export is asked to do.
pub struct CrossfadePlan {
    /// The clips, in their order.
    pub inputs: Seq<Seq<char>>,
    /// Where the result goes.
    pub output: Seq<char>,
    /// The duration of each crossfade, in microseconds.
    pub duration: int,
    /// The size of the result.
    pub resolution: Resolution,
    /// The directory of the intermediate files.
    pub temp_dir: Seq<char>,
}

/// A crossfade export: what it is asked to do, and where it stands.
pub struct CrossfadeView {
    pub plan: CrossfadePlan,
    pub phase: CrossfadePhase,
}

/// The export of a sequence of clips with crossfades between them.
pub struct CrossfadeExport {
    inputs: Vec<String>,
    output: String,
    duration: Seconds,
    resolution: Resolution,
    temp_dir: String,
    phase: CrossfadePhase,
}

impl View for CrossfadeExport {
    type V = CrossfadeView;

    closed spec fn view(&self) -> CrossfadeView {
        CrossfadeView {
            plan: CrossfadePlan {
                inputs: self.inputs.deep_view(),
                output: self.output@,
                duration: self.duration.micros as int,
                resolution: self.resolution,
                temp_dir: self.temp_dir@,
            },
            phase: self.phase,
        }
    }
}

/// The phase is one that an export of `count` clips can be in.
pub open spec fn phase_fits(phase: CrossfadePhase, count: nat) -> bool {
    match phase {
        CrossfadePhase::Single => count == 1,
        CrossfadePhase::Probing { next } => 1 <= next < count,
        CrossfadePhase::Merging { next } => 1 <= next < count,
        CrossfadePhase::Finalizing => count >= 2,
        CrossfadePhase::Done => true,
    }
}

/// The intermediate file that merge number `step` writes.
pub open spec fn step_path(plan: CrossfadePlan, step: nat) -> Seq<char> {
    child_path(plan.temp_dir, "xfade_step_"@ + decimal(step) + ".mp4"@)
}

/// The intermediate files of the merges 1 to `count`.
pub open spec fn step_paths(plan: CrossfadePlan, count: nat) -> Seq<Seq<char>> {
    Seq::new(count, |i: int| step_path(plan, (i + 1) as nat))
}

/// The merged part to which input `next` is merged: the first clip at first,
/// then the intermediate file of the merge before.
pub open spec fn left_path(plan: CrossfadePlan, next: nat) -> Seq<char> {
    if next <= 1 {
        plan.inputs[0]
    } else {
        step_path(plan, (next - 1) as nat)
    }
}

/// The number of merges that have been invoked when an export is in `phase`,
/// where the phase tells.
pub open spec fn merges_begun(phase: CrossfadePhase, count: nat) -> nat {
    match phase {
        CrossfadePhase::Single => 0,
        CrossfadePhase::Probing { next } => (next - 1) as nat,
        CrossfadePhase::Merging { next } => next as nat,
        CrossfadePhase::Finalizing => (count - 1) as nat,
        CrossfadePhase::Done => 0,
    }
}

/// The intermediate files that may exist when an export is in `phase`.
pub open spec fn intermediates(plan: CrossfadePlan, phase: CrossfadePhase) -> Seq<Seq<char>> {
    step_paths(plan, merges_begun(phase, plan.inputs.len()))
}

/// The stage that finalizes: scaling where the resolution asks for a height,
/// else a copy.
pub open spec fn final_stage(resolution: Resolution) -> Stage {
    if target_height(resolution) is Some {
        Stage::Scaling
    } else {
        Stage::Finalize
    }
}

/// The invocation that finalizes: the last intermediate is encoded at the
/// resolution's height, or copied as it is where the resolution is the source's.
pub open spec fn final_action(plan: CrossfadePlan) -> ActionView {
    let last = step_path(plan, (plan.inputs.len() - 1) as nat);
    if target_height(plan.resolution) is Some {
        ActionView::Run {
            stage: Stage::Scaling,
            args: encode_args(last, plan.output, plan.resolution),
        }
    } else {
        ActionView::Run { stage: Stage::Finalize, args: remux_args(last, plan.output) }
    }
}

/// The failure reported where an export is given no clip.
pub open spec fn no_inputs() -> ErrorView {
    plain_failure(ErrorKind::Validation, "No input files provided"@)
}

/// The failure reported where clips are to be merged with a crossfade whose
/// duration is not positive.
pub open spec fn no_duration() -> ErrorView {
    plain_failure(ErrorKind::Validation, "Invalid crossfade duration"@)
}

/// How a crossfade export begins. With a validation error, before anything
/// is invoked, where there is no clip, or where there are several and the
/// duration of the crossfade is not positive; with the encoding of the only
/// clip, to which no crossfade applies; or with the probe of the first of
/// several.
pub open spec fn crossfade_start(plan: CrossfadePlan) -> (CrossfadePhase, ActionView) {
    if plan.inputs.len() == 0 {
        (CrossfadePhase::Done, failed(no_inputs(), Seq::<Seq<char>>::empty()))
    } else if plan.inputs.len() >= 2 && plan.duration <= 0 {
        (CrossfadePhase::Done, failed(no_duration(), Seq::<Seq<char>>::empty()))
    } else if plan.inputs.len() == 1 {
        (
            CrossfadePhase::Single,
            ActionView::Run {
                stage: Stage::Engine,
                args: encode_args(plan.inputs[0], plan.output, plan.resolution),
            },
        )
    } else {
        (
            CrossfadePhase::Probing { next: 1 },
            ActionView::Run { stage: Stage::Probe, args: probe_args(plan.inputs[0]) },
        )
    }
}

/// The merge of input `next` to a merged part that is `left` microseconds long.
pub open spec fn merge_action(plan: CrossfadePlan, next: nat, left: int) -> ActionView {
    ActionView::Run {
        stage: Stage::CrossfadeStep,
        args: crossfade_args(
            left_path(plan, next),
            plan.inputs[next as int],
            plan.duration,
            crossfade_offset(left, plan.duration),
            step_path(plan, next),
        ),
    }
}

/// How a crossfade export goes on: the phase it enters and the action it
/// hands out when `event` arrives in `phase`.
pub open spec fn crossfade_step(plan: CrossfadePlan, phase: CrossfadePhase, event: EventView) -> (
    CrossfadePhase,
    ActionView,
) {
    let created = intermediates(plan, phase);
    match (phase, event) {
        (CrossfadePhase::Single, EventView::Process(outcome)) => (
            CrossfadePhase::Done,
            ActionView::Finish { result: exit_result(Stage::Engine, outcome), cleanup: created },
        ),
        (CrossfadePhase::Probing { next }, EventView::Process(outcome)) => match probe_result(
            outcome,
        ) {
            Ok(left) => (CrossfadePhase::Merging { next }, merge_action(plan, next as nat, left)),
            Err(error) => (CrossfadePhase::Done, failed(error, created)),
        },
        (CrossfadePhase::Merging { next }, EventView::Process(outcome)) => match exit_result(
            Stage::CrossfadeStep,
            outcome,
        ) {
            Ok(_) => if next + 1 < plan.inputs.len() {
                (
                    CrossfadePhase::Probing { next: (next + 1) as usize },
                    ActionView::Run {
                        stage: Stage::Probe,
                        args: probe_args(step_path(plan, next as nat)),
                    },
                )
            } else {
                (CrossfadePhase::Finalizing, final_action(plan))
            },
            Err(error) => (CrossfadePhase::Done, failed(error, created)),
        },
        (CrossfadePhase::Finalizing, EventView::Process(outcome)) => (
            CrossfadePhase::Done,
            ActionView::Finish {
                result: exit_result(final_stage(plan.resolution), outcome),
                cleanup: created,
            },
        ),
        _ => (CrossfadePhase::Done, failed(unexpected_event(), created)),
    }
}

/// The actions that an export hands out in answer to `events`, one for each
/// event, when the first of them arrives in `phase`.
pub open spec fn crossfade_run(
    plan: CrossfadePlan,
    phase: CrossfadePhase,
    events: Seq<EventView>,
) -> Seq<ActionView>
    decreases events.len(),
{
    if events.len() == 0 {
        Seq::<ActionView>::empty()
    } else {
        let (next, action) = crossfade_step(plan, phase, events[0]);
        seq![action] + crossfade_run(plan, next, events.drop_first())
    }
}

/// All the actions of an export whose driver reports `events`: the first
/// action, and one in answer to each event.
pub open spec fn crossfade_actions(plan: CrossfadePlan, events: Seq<EventView>) -> Seq<
    ActionView,
> {
    seq![crossfade_start(plan).1] + crossfade_run(plan, crossfade_start(plan).0, events)
}

proof fn lemma_over_stays_over(plan: CrossfadePlan, events: Seq<EventView>)
    ensures
        forall|i: int|
            0 <= i < events.len() ==> !finishes_well(
                #[trigger] crossfade_run(plan, CrossfadePhase::Done, events)[i],
            ) && finishes(crossfade_run(plan, CrossfadePhase::Done, events)[i]),
        crossfade_run(plan, CrossfadePhase::Done, events).len() == events.len(),
    decreases events.len(),
{
    if events.len() > 0 {
        lemma_over_stays_over(plan, events.drop_first());
    }
}

/// The number of probes that have been invoked when an export is in `phase`,
/// where the phase tells.
spec fn probes_begun(phase: CrossfadePhase, count: nat) -> nat {
    match phase {
        CrossfadePhase::Single => 0,
        CrossfadePhase::Probing { next } => next as nat,
        CrossfadePhase::Merging { next } => next as nat,
        CrossfadePhase::Finalizing => (count - 1) as nat,
        CrossfadePhase::Done => 0,
    }
}

/// The number of invocations in `stage`, a merge or a probe, that have been
/// made when an export is in `phase`.
spec fn runs_begun(stage: Stage, phase: CrossfadePhase, count: nat) -> nat {
    if stage == Stage::Probe {
        probes_begun(phase, count)
    } else {
        merges_begun(phase, count)
    }
}

proof fn lemma_runs_left(
    plan: CrossfadePlan,
    phase: CrossfadePhase,
    events: Seq<EventView>,
    stage: Stage,
)
    requires
        stage == Stage::CrossfadeStep || stage == Stage::Probe,
        plan.inputs.len() <= usize::MAX,
        phase_fits(phase, plan.inputs.len()),
        events.len() > 0,
        finishes_well(crossfade_run(plan, phase, events).last()),
    ensures
        count_runs(crossfade_run(plan, phase, events), stage) + runs_begun(
            stage,
            phase,
            plan.inputs.len(),
        ) == plan.inputs.len() - 1,
    decreases events.len(),
{
    let (next, action) = crossfade_step(plan, phase, events[0]);
    let rest = events.drop_first();
    let run = crossfade_run(plan, phase, events);
    let tail = crossfade_run(plan, next, rest);
    assert(run == seq![action] + tail);
    assert(run.drop_first() =~= tail);
    assert(run[0] == action);
    assert(phase_fits(next, plan.inputs.len()));
    if next == CrossfadePhase::Done {
        lemma_over_stays_over(plan, rest);
        if rest.len() > 0 {
            assert(run.last() == tail[rest.len() - 1]);
        } else {
            assert(tail =~= Seq::<ActionView>::empty());
            assert(run.last() == action);
            assert(count_runs(tail, stage) == 0);
        }
    } else {
        if rest.len() == 0 {
            assert(tail =~= Seq::<ActionView>::empty());
            assert(run.last() == action);
        } else {
            lemma_run_length(plan, next, rest);
            assert(run.last() == tail.last());
            lemma_runs_left(plan, next, rest, stage);
        }
    }
}

proof fn lemma_whole_run(plan: CrossfadePlan, events: Seq<EventView>, stage: Stage)
    requires
        stage == Stage::CrossfadeStep || stage == Stage::Probe,
        plan.inputs.len() <= usize::MAX,
        finishes_well(crossfade_actions(plan, events).last()),
    ensures
        plan.inputs.len() >= 1,
        count_runs(crossfade_actions(plan, events), stage) == plan.inputs.len() - 1,
{
    let (phase, first) = crossfade_start(plan);
    let run = crossfade_run(plan, phase, events);
    let all = crossfade_actions(plan, events);
    assert(all.drop_first() =~= run);
    lemma_run_length(plan, phase, events);
    if events.len() == 0 {
        assert(all.last() == first);
    } else {
        assert(all.last() == run.last());
        if plan.inputs.len() == 0 {
            lemma_over_stays_over(plan, events);
        } else {
            lemma_runs_left(plan, phase, events, stage);
        }
    }
}

proof fn lemma_run_length(plan: CrossfadePlan, phase: CrossfadePhase, events: Seq<EventView>)
    ensures
        crossfade_run(plan, phase, events).len() == events.len(),
    decreases events.len(),
{
    if events.len() > 0 {
        lemma_run_length(plan, crossfade_step(plan, phase, events[0]).0, events.drop_first());
    }
}

/// An export of N clips that ends with success has invoked exactly N - 1
/// merges, whatever its driver reported on the way.
pub proof fn law_merges_are_one_less_than_clips(plan: CrossfadePlan, events: Seq<EventView>)
    requires
        plan.inputs.len() <= usize::MAX,
        finishes_well(crossfade_actions(plan, events).last()),
    ensures
        plan.inputs.len() >= 1,
        count_runs(crossfade_actions(plan, events), Stage::CrossfadeStep) == plan.inputs.len() - 1,
{
    lemma_whole_run(plan, events, Stage::CrossfadeStep);
}

/// An export of N clips that ends with success has probed exactly N - 1
/// times: once before each merge.
pub proof fn law_probes_are_one_less_than_clips(plan: CrossfadePlan, events: Seq<EventView>)
    requires
        plan.inputs.len() <= usize::MAX,
        finishes_well(crossfade_actions(plan, events).last()),
    ensures
        count_runs(crossfade_actions(plan, events), Stage::Probe) == plan.inputs.len() - 1,
{
    lemma_whole_run(plan, events, Stage::Probe);
}

/// Each merge starts its crossfade where the merged part, as it was probed
/// just before, has the crossfade's duration left to run: at the probed
/// duration less the crossfade's, and at 0 where that would be negative.
pub proof fn law_merge_offset(plan: CrossfadePlan, next: usize, outcome: OutcomeView, left: int)
    requires
        probe_result(outcome) == Ok::<int, ErrorView>(left),
    ensures
        crossfade_step(plan, CrossfadePhase::Probing { next }, EventView::Process(outcome)) == (
            CrossfadePhase::Merging { next },
            ActionView::Run {
                stage: Stage::CrossfadeStep,
                args: crossfade_args(
                    left_path(plan, next as nat),
                    plan.inputs[next as int],
                    plan.duration,
                    if left - plan.duration > 0 {
                        left - plan.duration
                    } else {
                        0
                    },
                    step_path(plan, next as nat),
                ),
            },
        ),
{
}

/// An export that is given no clip ends at once with a validation error, and
/// invokes nothing, whatever its driver reports.
pub proof fn law_no_clip_is_refused(plan: CrossfadePlan, events: Seq<EventView>)
    requires
        plan.inputs.len() == 0,
    ensures
        crossfade_actions(plan, events)[0] == failed(no_inputs(), Seq::<Seq<char>>::empty()),
        no_inputs().kind == ErrorKind::Validation,
        forall|i: int|
            0 <= i < crossfade_actions(plan, events).len() ==> finishes(
                #[trigger] crossfade_actions(plan, events)[i],
            ) && !finishes_well(crossfade_actions(plan, events)[i]),
{
    lemma_over_stays_over(plan, events);
    let run = crossfade_run(plan, CrossfadePhase::Done, events);
    let all = crossfade_actions(plan, events);
    assert forall|i: int| 0 <= i < all.len() implies finishes(#[trigger] all[i]) && !finishes_well(
        all[i],
    ) by {
        if i > 0 {
            assert(all[i] == run[i - 1]);
        }
    }
}

/// An export of several clips whose crossfade duration is not positive ends
/// at once with a validation error, and invokes nothing, whatever its driver
/// reports.
pub proof fn law_duration_must_be_positive(plan: CrossfadePlan, events: Seq<EventView>)
    requires
        plan.inputs.len() >= 2,
        plan.duration <= 0,
    ensures
        crossfade_actions(plan, events)[0] == failed(no_duration(), Seq::<Seq<char>>::empty()),
        no_duration().kind == ErrorKind::Validation,
        forall|i: int|
            0 <= i < crossfade_actions(plan, events).len() ==> finishes(
                #[trigger] crossfade_actions(plan, events)[i],
            ) && !finishes_well(crossfade_actions(plan, events)[i]),
{
    lemma_over_stays_over(plan, events);
    let run = crossfade_run(plan, CrossfadePhase::Done, events);
    let all = crossfade_actions(plan, events);
    assert forall|i: int| 0 <= i < all.len() implies finishes(#[trigger] all[i]) && !finishes_well(
        all[i],
    ) by {
        if i > 0 {
            assert(all[i] == run[i - 1]);
        }
    }
}

/// Every action that ends an export lists for removal the intermediate files
/// of the merges invoked until then.
pub proof fn law_end_lists_intermediates(
    plan: CrossfadePlan,
    phase: CrossfadePhase,
    event: EventView,
)
    ensures
        crossfade_step(plan, phase, event).1 matches ActionView::Finish { cleanup, .. }
            ==> cleanup == step_paths(plan, merges_begun(phase, plan.inputs.len())),
{
}

impl CrossfadeExport {
    #[verifier::type_invariant]
    spec fn well_formed(self) -> bool {
        &&& phase_fits(self.phase, self.inputs.len() as nat)
        &&& self.phase is Probing || self.phase is Merging ==> self.duration.micros > 0
    }

    /// The export of `inputs` to `output`, with crossfades of `duration` and
    /// with its intermediate files in `temp_dir`; and the first action.
    /// Several clips need a duration above zero.
    pub fn start(
        inputs: Vec<String>,
        output: String,
        duration: Seconds,
        resolution: Resolution,
        temp_dir: String,
    ) -> (r: (CrossfadeExport, Action))
        ensures
            r.0@.plan == (CrossfadePlan {
                inputs: inputs.deep_view(),
                output: output@,
                duration: duration.micros as int,
                resolution,
                temp_dir: temp_dir@,
            }),
            (r.0@.phase, r.1@) == crossfade_start(r.0@.plan),
            phase_fits(r.0@.phase, inputs.len() as nat),
    {
        let count = inputs.len();
        if count >= 2 && duration.micros <= 0 {
            let export = CrossfadeExport {
                inputs,
                output,
                duration,
                resolution,
                temp_dir,
                phase: CrossfadePhase::Done,
            };
            let action = Action::Finish {
                result: Err(
                    ExportError::plain(ErrorKind::Validation, "Invalid crossfade duration"),
                ),
                cleanup: no_paths(),
            };
            (export, action)
        } else if count == 0 {
            let export = CrossfadeExport {
                inputs,
                output,
                duration,
                resolution,
                temp_dir,
                phase: CrossfadePhase::Done,
            };
            let action = Action::Finish {
                result: Err(ExportError::plain(ErrorKind::Validation, "No input files provided")),
                cleanup: no_paths(),
            };
            (export, action)
        } else if count == 1 {
            let args = encode(inputs[0].as_str(), output.as_str(), resolution);
            let export = CrossfadeExport {
                inputs,
                output,
                duration,
                resolution,
                temp_dir,
                phase: CrossfadePhase::Single,
            };
            (export, Action::Run { stage: Stage::Engine, args })
        } else {
            let args = probe(inputs[0].as_str());
            let export = CrossfadeExport {
                inputs,
                output,
                duration,
                resolution,
                temp_dir,
                phase: CrossfadePhase::Probing { next: 1 },
            };
            (export, Action::Run { stage: Stage::Probe, args })
        }
    }

    /// The intermediate file that merge number `step` writes.
    fn step_file(&self, step: usize) -> (path: String)
        ensures
            path@ == step_path(self@.plan, step as nat),
    {
        let mut name = String::from_str("xfade_step_");
        push_decimal(&mut name, step as u64);
        name.append(".mp4");
        join_path(self.temp_dir.as_str(), name.as_str())
    }

    /// The intermediate files of the merges 1 to `count`.
    fn step_files(&self, count: usize) -> (paths: Vec<String>)
        ensures
            paths.deep_view() == step_paths(self@.plan, count as nat),
    {
        let mut paths: Vec<String> = Vec::new();
        let mut i: usize = 0;
        assert(paths.deep_view() =~= step_paths(self@.plan, 0));
        while i < count
            invariant
                i <= count,
                paths.deep_view() == step_paths(self@.plan, i as nat),
            decreases count - i,
        {
            let path = self.step_file(i + 1);
            push_owned(&mut paths, path);
            i = i + 1;
            assert(paths.deep_view() =~= step_paths(self@.plan, i as nat));
        }
        paths
    }

    /// The intermediate files that may exist by now.
    fn created(&self) -> (paths: Vec<String>)
        ensures
            paths.deep_view() == intermediates(self@.plan, self@.phase),
    {
        proof {
            use_type_invariant(self);
        }
        let count: usize = match self.phase {
            CrossfadePhase::Single => 0,
            CrossfadePhase::Probing { next } => next - 1,
            CrossfadePhase::Merging { next } => next,
            CrossfadePhase::Finalizing => self.inputs.len() - 1,
            CrossfadePhase::Done => 0,
        };
        self.step_files(count)
    }

    /// The action that ends the export with `error`.
    fn fail(&self, error: ExportError) -> (action: Action)
        ensures
            action@ == failed(error@, intermediates(self@.plan, self@.phase)),
    {
        Action::Finish { result: Err(error), cleanup: self.created() }
    }

    /// The merge of input `next` to a merged part that is `left` long.
    fn merge(&self, next: usize, left: Seconds) -> (action: Action)
        requires
            1 <= next < self@.plan.inputs.len(),
            self@.plan.duration > 0,
        ensures
            action@ == merge_action(self@.plan, next as nat, left.micros as int),
    {
        proof {
            use_type_invariant(self);
        }
        let source = if next == 1 {
            self.inputs[0].clone()
        } else {
            self.step_file(next - 1)
        };
        let offset = offset_of_crossfade(left, self.duration);
        let target = self.step_file(next);
        let args = crossfade(
            source.as_str(),
            self.inputs[next].as_str(),
            self.duration,
            offset,
            target.as_str(),
        );
        Action::Run { stage: Stage::CrossfadeStep, args }
    }

    /// The invocation that finalizes.
    fn finalize(&self) -> (action: Action)
        requires
            self@.plan.inputs.len() >= 2,
        ensures
            action@ == final_action(self@.plan),
    {
        let last = self.step_file(self.inputs.len() - 1);
        match self.resolution.height() {
            Some(_) => Action::Run {
                stage: Stage::Scaling,
                args: encode(last.as_str(), self.output.as_str(), self.resolution),
            },
            None => Action::Run {
                stage: Stage::Finalize,
                args: remux(last.as_str(), self.output.as_str()),
            },
        }
    }

    /// Takes the event that answers the action handed out last, and hands out
    /// the next action.
    pub fn step(&mut self, event: &Event) -> (action: Action)
        ensures
            final(self)@.plan == old(self)@.plan,
            (final(self)@.phase, action@) == crossfade_step(
                old(self)@.plan,
                old(self)@.phase,
                event@,
            ),
            phase_fits(final(self)@.phase, old(self)@.plan.inputs.len()),
    {
        proof {
            use_type_invariant(&*self);
        }
        let phase = self.phase;
        match (phase, event) {
            (CrossfadePhase::Single, Event::Process(outcome)) => {
                let action = Action::Finish {
                    result: check_exit(Stage::Engine, outcome),
                    cleanup: self.created(),
                };
                self.phase = CrossfadePhase::Done;
                action
            },
            (CrossfadePhase::Probing { next }, Event::Process(outcome)) => {
                match probe_duration(outcome) {
                    Ok(left) => {
                        let action = self.merge(next, left);
                        self.phase = CrossfadePhase::Merging { next };
                        action
                    },
                    Err(error) => {
                        let action = self.fail(error);
                        self.phase = CrossfadePhase::Done;
                        action
                    },
                }
            },
            (CrossfadePhase::Merging { next }, Event::Process(outcome)) => {
                match check_exit(Stage::CrossfadeStep, outcome) {
                    Ok(_) => {
                        if next + 1 < self.inputs.len() {
                            let merged = self.step_file(next);
                            self.phase = CrossfadePhase::Probing { next: next + 1 };
                            Action::Run { stage: Stage::Probe, args: probe(merged.as_str()) }
                        } else {
                            let action = self.finalize();
                            self.phase = CrossfadePhase::Finalizing;
                            action
                        }
                    },
                    Err(error) => {
                        let action = self.fail(error);
                        self.phase = CrossfadePhase::Done;
                        action
                    },
                }
            },
            (CrossfadePhase::Finalizing, Event::Process(outcome)) => {
                let stage = match self.resolution.height() {
                    Some(_) => Stage::Scaling,
                    None => Stage::Finalize,
                };
                let action = Action::Finish {
                    result: check_exit(stage, outcome),
                    cleanup: self.created(),
                };
                self.phase = CrossfadePhase::Done;
                action
            },
            _ => {
                let action = self.fail(unexpected());
                self.phase = CrossfadePhase::Done;
                action
            },
        }
    }

    /// Where the export stands.
    pub fn phase(&self) -> (phase: CrossfadePhase)
        ensures
            phase == self@.phase,
    {
        self.phase
    }
}

} // verus!
