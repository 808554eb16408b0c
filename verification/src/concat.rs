//! Concatenation. Every export first reads the concat list, and ends with a
//! validation error, before anything is invoked, where the list names no
//! clip. A plain export then joins the clips as one stream of segments; where
//! that fails for any reason it reads the list back and joins the clips by a
//! filter graph instead, and returns what that attempt gives. An export with
//! fades encodes each clip of the list into a workspace directory, with its
//! fades or as a plain copy, and then joins the processed clips in the same
//! way: as one stream of segments, and by a filter graph where that fails.
//! Every action that ends an export with fades lists the workspace, once it
//! has been asked for, for removal.

use crate::args::{
    concat_demuxer, concat_filter, demuxer_args, fade, fade_args, filter_concat,
    filter_concat_args, no_inputs_listed, probe, probe_args,
};
use crate::concat_list::{list_of, list_text, listed_paths, parse_concat_list};
use crate::error::{failure, ErrorKind, ErrorView, ExportError, Stage};
use crate::export::{
    count_runs, failed, finishes, no_paths, unexpected, unexpected_event, Action, ActionView,
    Event, EventView,
};
use crate::probe::{probe_duration, probe_result};
use crate::resolution::Resolution;
use crate::runner::{check_exit, exit_result, succeeded, OutcomeView};
use crate::seconds::Seconds;
use crate::text::{child_path, decimal, join_path, push_decimal, push_owned};
use vstd::prelude::*;
use vstd::string::*;

verus! {

/// Where a concatenation stands.
#[derive(Clone, Copy, Debug, PartialEq, Eq, Structural)]
pub enum ConcatPhase {
    /// The list is being read, to see that it names a clip before the clips
    /// are joined.
    ListForPlain,
    /// The clips are being joined as one stream of segments, with the filter
    /// graph to fall back on.
    Demuxer,
    /// The list is being read, to join its clips by a filter graph.
    ListForFilter,
    /// The clips are being joined by a filter graph.
    Filter,
    /// The list is being read, to process its clips one by one.
    ListForFades,
    /// The workspace directory is being made.
    Workspace,
    /// Clip number `clip` is being probed.
    Probing { clip: usize },
    /// Clip number `clip` is being encoded with its fades.
    Fading { clip: usize },
    /// Clip number `clip`, which has no fade, is being copied.
    Copying { clip: usize },
    /// The list of the processed clips is being written.
    WritingList,
    /// The processed clips are being joined as one stream of segments, with
    /// the filter graph to fall back on.
    Joining,
    /// The processed clips are being joined by a filter graph.
    Rejoining,
    /// The export is over.
    Done,
}

/// What a concatenation is asked to do.
pub struct ConcatPlan {
    /// The concat list that names the clips.
    pub list_path: Seq<char>,
    /// Where the result goes.
    pub output: Seq<char>,
    /// The size of the result.
    pub resolution: Resolution,
    /// The fade-in and the fade-out of each clip, in microseconds, by the
    /// clip's place in the list. A clip beyond the end has none.
    pub fades: Seq<(int, int)>,
    /// The directory of the processed clips.
    pub workspace: Seq<char>,
}

/// What changes while a concatenation runs: the clips that the list was found
/// to name, and the phase.
pub struct ConcatState {
    pub clips: Seq<Seq<char>>,
    pub phase: ConcatPhase,
}

/// A concatenation: what it is asked to do, and where it stands.
pub struct ConcatView {
    pub plan: ConcatPlan,
    pub state: ConcatState,
}

/// The export of the clips of a concat list, joined end to end.
pub struct ConcatExport {
    list_path: String,
    output: String,
    resolution: Resolution,
    fades: Vec<(Seconds, Seconds)>,
    workspace: String,
    clips: Vec<String>,
    phase: ConcatPhase,
}

/// Pairs of times as pairs of microseconds.
pub open spec fn fade_pairs(fades: Seq<(Seconds, Seconds)>) -> Seq<(int, int)> {
    Seq::new(fades.len(), |i: int| (fades[i].0.micros as int, fades[i].1.micros as int))
}

impl View for ConcatExport {
    type V = ConcatView;

    closed spec fn view(&self) -> ConcatView {
        ConcatView {
            plan: ConcatPlan {
                list_path: self.list_path@,
                output: self.output@,
                resolution: self.resolution,
                fades: fade_pairs(self.fades@),
                workspace: self.workspace@,
            },
            state: ConcatState { clips: self.clips.deep_view(), phase: self.phase },
        }
    }
}

/// The phase is one that an export which found `count` clips can be in.
pub open spec fn phase_fits(phase: ConcatPhase, count: nat) -> bool {
    match phase {
        ConcatPhase::Probing { clip } => clip < count,
        ConcatPhase::Fading { clip } => clip < count,
        ConcatPhase::Copying { clip } => clip < count,
        _ => true,
    }
}

/// Where the processed clip number `clip` goes.
pub open spec fn clip_output(plan: ConcatPlan, clip: nat) -> Seq<char> {
    child_path(plan.workspace, "clip_"@ + decimal(clip) + ".mp4"@)
}

/// Where the processed clips 0 to `count - 1` go.
pub open spec fn clip_outputs(plan: ConcatPlan, count: nat) -> Seq<Seq<char>> {
    Seq::new(count, |i: int| clip_output(plan, i as nat))
}

/// Where the list of the processed clips goes.
pub open spec fn processed_list_path(plan: ConcatPlan) -> Seq<char> {
    child_path(plan.workspace, "processed_list.txt"@)
}

/// The fade-in and the fade-out of clip number `clip`.
pub open spec fn fades_of(plan: ConcatPlan, clip: nat) -> (int, int) {
    if clip < plan.fades.len() {
        plan.fades[clip as int]
    } else {
        (0, 0)
    }
}

/// What is to be removed when an export ends in `phase`: the workspace, from
/// the moment it is asked for.
pub open spec fn leftovers(plan: ConcatPlan, phase: ConcatPhase) -> Seq<Seq<char>> {
    match phase {
        ConcatPhase::Workspace
        | ConcatPhase::Probing { .. }
        | ConcatPhase::Fading { .. }
        | ConcatPhase::Copying { .. }
        | ConcatPhase::WritingList
        | ConcatPhase::Joining
        | ConcatPhase::Rejoining => seq![plan.workspace],
        _ => Seq::<Seq<char>>::empty(),
    }
}

/// The failure reported where something outside the engine could not be
/// done: `what` names it, `reason` says why.
pub open spec fn outside_failure(what: Seq<char>, reason: Seq<char>) -> ErrorView {
    failure(ErrorKind::Invocation, what, reason)
}

/// What follows once the clips before number `clip` are processed: the probe
/// of clip number `clip`, or after the last clip the writing of the list
/// that names the processed clips.
pub open spec fn turn_to_clip(plan: ConcatPlan, clips: Seq<Seq<char>>, clip: nat) -> (
    ConcatPhase,
    ActionView,
) {
    if clip < clips.len() {
        (
            ConcatPhase::Probing { clip: clip as usize },
            ActionView::Run { stage: Stage::Probe, args: probe_args(clips[clip as int]) },
        )
    } else {
        (
            ConcatPhase::WritingList,
            ActionView::WriteText {
                path: processed_list_path(plan),
                text: list_of(clip_outputs(plan, clips.len())),
            },
        )
    }
}

/// What follows the probe of clip number `clip`, found to be `total`
/// microseconds long: its encoding with its fades where one of them is
/// positive, else its copy.
pub open spec fn process_clip(plan: ConcatPlan, clips: Seq<Seq<char>>, clip: nat, total: int) -> (
    ConcatPhase,
    ActionView,
) {
    let (fade_in, fade_out) = fades_of(plan, clip);
    if fade_in > 0 || fade_out > 0 {
        (
            ConcatPhase::Fading { clip: clip as usize },
            ActionView::Run {
                stage: Stage::Fade,
                args: fade_args(
                    clips[clip as int],
                    clip_output(plan, clip),
                    Some(fade_in),
                    Some(fade_out),
                    total,
                ),
            },
        )
    } else {
        (
            ConcatPhase::Copying { clip: clip as usize },
            ActionView::CopyFile { from: clips[clip as int], to: clip_output(plan, clip) },
        )
    }
}

/// How a plain concatenation begins: with the reading of the list.
pub open spec fn plain_start(plan: ConcatPlan) -> (ConcatPhase, ActionView) {
    (ConcatPhase::ListForPlain, ActionView::ReadText { path: plan.list_path })
}

/// The attempt to join the clips of the list as one stream of segments.
pub open spec fn demuxer_attempt(plan: ConcatPlan) -> (ConcatPhase, ActionView) {
    (
        ConcatPhase::Demuxer,
        ActionView::Run {
            stage: Stage::ConcatDemuxer,
            args: demuxer_args(plan.list_path, plan.output, plan.resolution),
        },
    )
}

/// The attempt to join the processed clips by a filter graph.
pub open spec fn rejoin_attempt(plan: ConcatPlan, clips: Seq<Seq<char>>) -> (
    ConcatPhase,
    ActionView,
) {
    (
        ConcatPhase::Rejoining,
        ActionView::Run {
            stage: Stage::FilterConcat,
            args: filter_concat_args(
                clip_outputs(plan, clips.len()),
                plan.output,
                plan.resolution,
            ),
        },
    )
}

/// How a concatenation by filter graph begins: with the reading of the list.
pub open spec fn filter_start(plan: ConcatPlan) -> (ConcatPhase, ActionView) {
    (ConcatPhase::ListForFilter, ActionView::ReadText { path: plan.list_path })
}

/// How a concatenation with fades begins: with the reading of the list.
pub open spec fn fades_start(plan: ConcatPlan) -> (ConcatPhase, ActionView) {
    (ConcatPhase::ListForFades, ActionView::ReadText { path: plan.list_path })
}

/// The export ends with `action`.
pub open spec fn over(clips: Seq<Seq<char>>, action: ActionView) -> (ConcatState, ActionView) {
    (ConcatState { clips, phase: ConcatPhase::Done }, action)
}

/// The export goes on into the phase and with the action of `next`.
pub open spec fn on(clips: Seq<Seq<char>>, next: (ConcatPhase, ActionView)) -> (
    ConcatState,
    ActionView,
) {
    (ConcatState { clips, phase: next.0 }, next.1)
}

/// How a concatenation goes on: the state it enters and the action it hands
/// out when `event` arrives in `state`.
pub open spec fn concat_step(plan: ConcatPlan, state: ConcatState, event: EventView) -> (
    ConcatState,
    ActionView,
) {
    let clips = state.clips;
    let rest = leftovers(plan, state.phase);
    match (state.phase, event) {
        (ConcatPhase::ListForPlain, EventView::Text(Ok(text))) => if listed_paths(text).len()
            == 0 {
            over(clips, failed(no_inputs_listed(), rest))
        } else {
            on(clips, demuxer_attempt(plan))
        },
        (ConcatPhase::ListForPlain, EventView::Text(Err(reason))) => over(
            clips,
            failed(outside_failure("Failed to read concat list: "@, reason), rest),
        ),
        (ConcatPhase::Demuxer, EventView::Process(outcome)) => if succeeded(outcome) {
            over(
                clips,
                ActionView::Finish {
                    result: exit_result(Stage::ConcatDemuxer, outcome),
                    cleanup: rest,
                },
            )
        } else {
            on(clips, filter_start(plan))
        },
        (ConcatPhase::ListForFilter, EventView::Text(Ok(text))) => if listed_paths(text).len()
            == 0 {
            over(clips, failed(no_inputs_listed(), rest))
        } else {
            on(
                clips,
                (
                    ConcatPhase::Filter,
                    ActionView::Run {
                        stage: Stage::FilterConcat,
                        args: filter_concat_args(listed_paths(text), plan.output, plan.resolution),
                    },
                ),
            )
        },
        (ConcatPhase::ListForFilter, EventView::Text(Err(reason))) => over(
            clips,
            failed(outside_failure("Failed to read concat list: "@, reason), rest),
        ),
        (ConcatPhase::Filter, EventView::Process(outcome)) => over(
            clips,
            ActionView::Finish { result: exit_result(Stage::FilterConcat, outcome), cleanup: rest },
        ),
        (ConcatPhase::ListForFades, EventView::Text(Ok(text))) => if listed_paths(text).len()
            == 0 {
            over(clips, failed(no_inputs_listed(), rest))
        } else {
            (
                ConcatState { clips: listed_paths(text), phase: ConcatPhase::Workspace },
                ActionView::MakeDir { path: plan.workspace },
            )
        },
        (ConcatPhase::ListForFades, EventView::Text(Err(reason))) => over(
            clips,
            failed(outside_failure("Failed to read concat list: "@, reason), rest),
        ),
        (ConcatPhase::Workspace, EventView::Done(Ok(_))) => on(clips, turn_to_clip(plan, clips, 0)),
        (ConcatPhase::Workspace, EventView::Done(Err(reason))) => over(
            clips,
            failed(outside_failure("Failed to create temp directory: "@, reason), rest),
        ),
        (ConcatPhase::Probing { clip }, EventView::Process(outcome)) => match probe_result(
            outcome,
        ) {
            Ok(total) => on(clips, process_clip(plan, clips, clip as nat, total)),
            Err(error) => over(clips, failed(error, rest)),
        },
        (ConcatPhase::Fading { clip }, EventView::Process(outcome)) => match exit_result(
            Stage::Fade,
            outcome,
        ) {
            Ok(_) => on(clips, turn_to_clip(plan, clips, (clip + 1) as nat)),
            Err(error) => over(clips, failed(error, rest)),
        },
        (ConcatPhase::Copying { clip }, EventView::Done(Ok(_))) => on(
            clips,
            turn_to_clip(plan, clips, (clip + 1) as nat),
        ),
        (ConcatPhase::Copying { clip }, EventView::Done(Err(reason))) => over(
            clips,
            failed(outside_failure("Failed to copy file: "@, reason), rest),
        ),
        (ConcatPhase::WritingList, EventView::Done(Ok(_))) => on(
            clips,
            (
                ConcatPhase::Joining,
                ActionView::Run {
                    stage: Stage::ConcatDemuxer,
                    args: demuxer_args(processed_list_path(plan), plan.output, plan.resolution),
                },
            ),
        ),
        (ConcatPhase::WritingList, EventView::Done(Err(reason))) => over(
            clips,
            failed(outside_failure("Failed to write temp concat list: "@, reason), rest),
        ),
        (ConcatPhase::Joining, EventView::Process(outcome)) => if succeeded(outcome) {
            over(
                clips,
                ActionView::Finish {
                    result: exit_result(Stage::ConcatDemuxer, outcome),
                    cleanup: rest,
                },
            )
        } else {
            on(clips, rejoin_attempt(plan, clips))
        },
        (ConcatPhase::Rejoining, EventView::Process(outcome)) => over(
            clips,
            ActionView::Finish { result: exit_result(Stage::FilterConcat, outcome), cleanup: rest },
        ),
        _ => over(clips, failed(unexpected_event(), rest)),
    }
}

/// The actions that an export hands out in answer to `events`, one for each
/// event, when the first of them arrives in `state`.
pub open spec fn concat_run(plan: ConcatPlan, state: ConcatState, events: Seq<EventView>) -> Seq<
    ActionView,
>
    decreases events.len(),
{
    if events.len() == 0 {
        Seq::<ActionView>::empty()
    } else {
        let (next, action) = concat_step(plan, state, events[0]);
        seq![action] + concat_run(plan, next, events.drop_first())
    }
}

/// All the actions of an export that begins as `first` says and whose driver
/// reports `events`: the first action, and one in answer to each event.
pub open spec fn concat_actions(
    plan: ConcatPlan,
    first: (ConcatPhase, ActionView),
    events: Seq<EventView>,
) -> Seq<ActionView> {
    seq![first.1] + concat_run(
        plan,
        ConcatState { clips: Seq::<Seq<char>>::empty(), phase: first.0 },
        events,
    )
}

/// How many attempts by filter graph an export in `phase` may still make.
spec fn filter_runs_ahead(phase: ConcatPhase) -> nat {
    match phase {
        ConcatPhase::Filter | ConcatPhase::Rejoining | ConcatPhase::Done => 0,
        _ => 1,
    }
}

proof fn lemma_filter_runs(plan: ConcatPlan, state: ConcatState, events: Seq<EventView>)
    ensures
        count_runs(concat_run(plan, state, events), Stage::FilterConcat) <= filter_runs_ahead(
            state.phase,
        ),
    decreases events.len(),
{
    if events.len() > 0 {
        let (next, action) = concat_step(plan, state, events[0]);
        let tail = concat_run(plan, next, events.drop_first());
        lemma_filter_runs(plan, next, events.drop_first());
        assert((seq![action] + tail).drop_first() =~= tail);
    }
}

proof fn lemma_over_stays_over(plan: ConcatPlan, clips: Seq<Seq<char>>, events: Seq<EventView>)
    ensures
        concat_run(plan, ConcatState { clips, phase: ConcatPhase::Done }, events).len()
            == events.len(),
        forall|i: int|
            0 <= i < events.len() ==> finishes(
                #[trigger] concat_run(
                    plan,
                    ConcatState { clips, phase: ConcatPhase::Done },
                    events,
                )[i],
            ),
    decreases events.len(),
{
    if events.len() > 0 {
        lemma_over_stays_over(plan, clips, events.drop_first());
    }
}

/// A plain export reads the list, then tries to join the clips as one
/// stream of segments. Where that attempt fails, the list is read back and
/// the clips are joined by a filter graph, at the same resolution, and what
/// that attempt gives is what the export returns.
pub proof fn law_fallback_follows_failure(
    plan: ConcatPlan,
    listed: Seq<char>,
    first: OutcomeView,
    text: Seq<char>,
    second: OutcomeView,
)
    requires
        listed_paths(listed).len() > 0,
        !succeeded(first),
        listed_paths(text).len() > 0,
    ensures
        concat_actions(
            plan,
            plain_start(plan),
            seq![
                EventView::Text(Ok(listed)),
                EventView::Process(first),
                EventView::Text(Ok(text)),
                EventView::Process(second),
            ],
        ) == seq![
            ActionView::ReadText { path: plan.list_path },
            ActionView::Run {
                stage: Stage::ConcatDemuxer,
                args: demuxer_args(plan.list_path, plan.output, plan.resolution),
            },
            ActionView::ReadText { path: plan.list_path },
            ActionView::Run {
                stage: Stage::FilterConcat,
                args: filter_concat_args(listed_paths(text), plan.output, plan.resolution),
            },
            ActionView::Finish {
                result: exit_result(Stage::FilterConcat, second),
                cleanup: Seq::<Seq<char>>::empty(),
            },
        ],
{
    let e0 = EventView::Text(Ok::<Seq<char>, Seq<char>>(listed));
    let e1 = EventView::Process(first);
    let e2 = EventView::Text(Ok::<Seq<char>, Seq<char>>(text));
    let e3 = EventView::Process(second);
    let events = seq![e0, e1, e2, e3];
    let none = Seq::<Seq<char>>::empty();
    let s0 = ConcatState { clips: none, phase: ConcatPhase::ListForPlain };
    let (s1, a0) = concat_step(plan, s0, e0);
    let (s2, a1) = concat_step(plan, s1, e1);
    let (s3, a2) = concat_step(plan, s2, e2);
    let (s4, a3) = concat_step(plan, s3, e3);
    assert(events.drop_first() =~= seq![e1, e2, e3]);
    assert(seq![e1, e2, e3].drop_first() =~= seq![e2, e3]);
    assert(seq![e2, e3].drop_first() =~= seq![e3]);
    assert(seq![e3].drop_first() =~= Seq::<EventView>::empty());
    assert(concat_run(plan, s4, Seq::<EventView>::empty()) =~= Seq::<ActionView>::empty());
    assert(concat_run(plan, s3, seq![e3]) =~= seq![a3]);
    assert(concat_run(plan, s2, seq![e2, e3]) =~= seq![a2, a3]);
    assert(concat_run(plan, s1, seq![e1, e2, e3]) =~= seq![a1, a2, a3]);
    assert(concat_run(plan, s0, events) =~= seq![a0, a1, a2, a3]);
    assert(concat_actions(plan, plain_start(plan), events) =~= seq![
        plain_start(plan).1,
        a0,
        a1,
        a2,
        a3,
    ]);
}

/// Where the attempt to join the processed clips of an export with fades as
/// one stream of segments fails, the same processed clips are joined by a
/// filter graph, at the same resolution, and what that attempt gives is what
/// the export returns, with the workspace listed for removal.
pub proof fn law_fallback_follows_fades(
    plan: ConcatPlan,
    clips: Seq<Seq<char>>,
    first: OutcomeView,
    second: OutcomeView,
)
    requires
        !succeeded(first),
    ensures
        concat_run(
            plan,
            ConcatState { clips, phase: ConcatPhase::Joining },
            seq![EventView::Process(first), EventView::Process(second)],
        ) == seq![
            ActionView::Run {
                stage: Stage::FilterConcat,
                args: filter_concat_args(
                    clip_outputs(plan, clips.len()),
                    plan.output,
                    plan.resolution,
                ),
            },
            ActionView::Finish {
                result: exit_result(Stage::FilterConcat, second),
                cleanup: seq![plan.workspace],
            },
        ],
{
    let e1 = EventView::Process(first);
    let e2 = EventView::Process(second);
    let s0 = ConcatState { clips, phase: ConcatPhase::Joining };
    let (s1, a1) = concat_step(plan, s0, e1);
    let (s2, a2) = concat_step(plan, s1, e2);
    assert(seq![e1, e2].drop_first() =~= seq![e2]);
    assert(seq![e2].drop_first() =~= Seq::<EventView>::empty());
    assert(concat_run(plan, s2, Seq::<EventView>::empty()) =~= Seq::<ActionView>::empty());
    assert(concat_run(plan, s1, seq![e2]) =~= seq![a2]);
    assert(concat_run(plan, s0, seq![e1, e2]) =~= seq![a1, a2]);
}

/// No export joins by filter graph more than once, however it begins and
/// whatever its driver reports.
pub proof fn law_fallback_at_most_once(
    plan: ConcatPlan,
    first: (ConcatPhase, ActionView),
    events: Seq<EventView>,
)
    requires
        first == plain_start(plan) || first == filter_start(plan) || first == fades_start(plan),
    ensures
        count_runs(concat_actions(plan, first, events), Stage::FilterConcat) <= 1,
{
    let state = ConcatState { clips: Seq::<Seq<char>>::empty(), phase: first.0 };
    let run = concat_run(plan, state, events);
    lemma_filter_runs(plan, state, events);
    assert(concat_actions(plan, first, events).drop_first() =~= run);
}

/// An export whose list names no clip ends with a validation error as soon
/// as the list is read, and invokes nothing, however it begins and whatever
/// its driver reports after that.
pub proof fn law_empty_list_is_refused(
    plan: ConcatPlan,
    first: (ConcatPhase, ActionView),
    text: Seq<char>,
    events: Seq<EventView>,
)
    requires
        first == plain_start(plan) || first == filter_start(plan) || first == fades_start(plan),
        listed_paths(text).len() == 0,
    ensures
        ({
            let actions = concat_actions(plan, first, seq![EventView::Text(Ok(text))] + events);
            &&& actions.len() == events.len() + 2
            &&& actions[0] == ActionView::ReadText { path: plan.list_path }
            &&& actions[1] == failed(no_inputs_listed(), Seq::<Seq<char>>::empty())
            &&& no_inputs_listed().kind == ErrorKind::Validation
            &&& forall|i: int| 0 <= i < actions.len() ==> !(#[trigger] actions[i] is Run)
        }),
{
    let none = Seq::<Seq<char>>::empty();
    let read = EventView::Text(Ok::<Seq<char>, Seq<char>>(text));
    let all = seq![read] + events;
    let state = ConcatState { clips: none, phase: first.0 };
    let (next, action) = concat_step(plan, state, read);
    let tail = concat_run(plan, next, events);
    assert(all.drop_first() =~= events);
    assert(concat_run(plan, state, all) == seq![action] + tail);
    lemma_over_stays_over(plan, none, events);
    let actions = concat_actions(plan, first, all);
    assert(actions =~= seq![first.1, action] + tail);
    assert forall|i: int| 0 <= i < actions.len() implies !(#[trigger] actions[i] is Run) by {
        if i >= 2 {
            assert(actions[i] == tail[i - 2]);
        }
    }
}

/// Every action that ends an export lists the workspace for removal, from
/// the moment the workspace is asked for.
pub proof fn law_end_lists_workspace(plan: ConcatPlan, state: ConcatState, event: EventView)
    ensures
        concat_step(plan, state, event).1 matches ActionView::Finish { cleanup, .. } ==> cleanup
            == leftovers(plan, state.phase),
{
}

impl ConcatExport {
    #[verifier::type_invariant]
    spec fn well_formed(self) -> bool {
        phase_fits(self.phase, self.clips.len() as nat)
    }

    /// A plain export of the clips that the list at `list_path` names to
    /// `output`, and its first action.
    pub fn start(list_path: String, output: String, resolution: Resolution) -> (r: (
        ConcatExport,
        Action,
    ))
        ensures
            r.0@.plan == (ConcatPlan {
                list_path: list_path@,
                output: output@,
                resolution,
                fades: Seq::<(int, int)>::empty(),
                workspace: Seq::<char>::empty(),
            }),
            r.0@.state.clips == Seq::<Seq<char>>::empty(),
            (r.0@.state.phase, r.1@) == plain_start(r.0@.plan),
    {
        let action = Action::ReadText { path: list_path.clone() };
        let export = ConcatExport {
            list_path,
            output,
            resolution,
            fades: Vec::new(),
            workspace: String::new(),
            clips: no_paths(),
            phase: ConcatPhase::ListForPlain,
        };
        assert(export@.plan.fades =~= Seq::<(int, int)>::empty());
        (export, action)
    }

    /// An export that joins the clips by a filter graph without trying
    /// anything else first, and its first action.
    pub fn start_filter(list_path: String, output: String, resolution: Resolution) -> (r: (
        ConcatExport,
        Action,
    ))
        ensures
            r.0@.plan == (ConcatPlan {
                list_path: list_path@,
                output: output@,
                resolution,
                fades: Seq::<(int, int)>::empty(),
                workspace: Seq::<char>::empty(),
            }),
            r.0@.state.clips == Seq::<Seq<char>>::empty(),
            (r.0@.state.phase, r.1@) == filter_start(r.0@.plan),
    {
        let action = Action::ReadText { path: list_path.clone() };
        let export = ConcatExport {
            list_path,
            output,
            resolution,
            fades: Vec::new(),
            workspace: String::new(),
            clips: no_paths(),
            phase: ConcatPhase::ListForFilter,
        };
        assert(export@.plan.fades =~= Seq::<(int, int)>::empty());
        (export, action)
    }

    /// An export that gives each clip the fade-in and the fade-out that
    /// `fades` holds at the clip's place in the list, with the processed clips
    /// in the directory `workspace`; and its first action. The workspace is
    /// this export's own: it is made when the list has been read, and listed
    /// for removal, with all that is in it, when the export ends. Without
    /// `fades` the export is a plain one and uses no workspace.
    pub fn start_with_fades(
        list_path: String,
        output: String,
        resolution: Resolution,
        fades: Option<Vec<(Seconds, Seconds)>>,
        workspace: String,
    ) -> (r: (ConcatExport, Action))
        ensures
            r.0@.state.clips == Seq::<Seq<char>>::empty(),
            match fades {
                Some(pairs) => r.0@.plan == (ConcatPlan {
                    list_path: list_path@,
                    output: output@,
                    resolution,
                    fades: fade_pairs(pairs@),
                    workspace: workspace@,
                }) && (r.0@.state.phase, r.1@) == fades_start(r.0@.plan),
                None => r.0@.plan == (ConcatPlan {
                    list_path: list_path@,
                    output: output@,
                    resolution,
                    fades: Seq::<(int, int)>::empty(),
                    workspace: Seq::<char>::empty(),
                }) && (r.0@.state.phase, r.1@) == plain_start(r.0@.plan),
            },
    {
        match fades {
            Some(pairs) => {
                let action = Action::ReadText { path: list_path.clone() };
                let export = ConcatExport {
                    list_path,
                    output,
                    resolution,
                    fades: pairs,
                    workspace,
                    clips: no_paths(),
                    phase: ConcatPhase::ListForFades,
                };
                (export, action)
            },
            None => ConcatExport::start(list_path, output, resolution),
        }
    }

    /// Where the processed clip number `clip` goes.
    fn clip_file(&self, clip: usize) -> (path: String)
        ensures
            path@ == clip_output(self@.plan, clip as nat),
    {
        let mut name = String::from_str("clip_");
        push_decimal(&mut name, clip as u64);
        name.append(".mp4");
        join_path(self.workspace.as_str(), name.as_str())
    }

    /// Where the processed clips go.
    fn clip_files(&self) -> (outputs: Vec<String>)
        ensures
            outputs.deep_view() == clip_outputs(self@.plan, self@.state.clips.len()),
    {
        let mut outputs: Vec<String> = no_paths();
        let mut i: usize = 0;
        assert(outputs.deep_view() =~= clip_outputs(self@.plan, 0));
        while i < self.clips.len()
            invariant
                i <= self.clips.len(),
                outputs.deep_view() == clip_outputs(self@.plan, i as nat),
            decreases self.clips.len() - i,
        {
            let path = self.clip_file(i);
            push_owned(&mut outputs, path);
            i = i + 1;
            assert(outputs.deep_view() =~= clip_outputs(self@.plan, i as nat));
        }
        outputs
    }

    /// What is to be removed when the export ends now.
    fn remains(&self) -> (paths: Vec<String>)
        ensures
            paths.deep_view() == leftovers(self@.plan, self@.state.phase),
    {
        match self.phase {
            ConcatPhase::Workspace
            | ConcatPhase::Probing { .. }
            | ConcatPhase::Fading { .. }
            | ConcatPhase::Copying { .. }
            | ConcatPhase::WritingList
            | ConcatPhase::Joining
            | ConcatPhase::Rejoining => {
                let mut paths: Vec<String> = no_paths();
                push_owned(&mut paths, self.workspace.clone());
                assert(paths.deep_view() =~= seq![self.workspace@]);
                paths
            },
            _ => no_paths(),
        }
    }

    /// Ends the export with `result`.
    fn end(&mut self, result: Result<i32, ExportError>) -> (action: Action)
        ensures
            final(self)@.plan == old(self)@.plan,
            final(self)@.state.clips == old(self)@.state.clips,
            final(self)@.state.phase == ConcatPhase::Done,
            action@ == (ActionView::Finish {
                result: crate::error::result_view(result),
                cleanup: leftovers(old(self)@.plan, old(self)@.state.phase),
            }),
    {
        let cleanup = self.remains();
        self.phase = ConcatPhase::Done;
        Action::Finish { result, cleanup }
    }

    /// Ends the export with the failure of something outside the engine.
    fn end_outside(&mut self, what: &str, reason: &str) -> (action: Action)
        ensures
            final(self)@.plan == old(self)@.plan,
            final(self)@.state.clips == old(self)@.state.clips,
            final(self)@.state.phase == ConcatPhase::Done,
            action@ == failed(
                outside_failure(what@, reason@),
                leftovers(old(self)@.plan, old(self)@.state.phase),
            ),
    {
        self.end(Err(ExportError::new(ErrorKind::Invocation, what, reason)))
    }

    /// Turns to clip number `clip`, or to the list where there is no such clip.
    fn turn_to(&mut self, clip: usize) -> (action: Action)
        ensures
            final(self)@.plan == old(self)@.plan,
            final(self)@.state.clips == old(self)@.state.clips,
            (final(self)@.state.phase, action@) == turn_to_clip(
                old(self)@.plan,
                old(self)@.state.clips,
                clip as nat,
            ),
    {
        if clip < self.clips.len() {
            let args = probe(self.clips[clip].as_str());
            self.phase = ConcatPhase::Probing { clip };
            Action::Run { stage: Stage::Probe, args }
        } else {
            let outputs = self.clip_files();
            let path = join_path(self.workspace.as_str(), "processed_list.txt");
            let text = list_text(&outputs);
            self.phase = ConcatPhase::WritingList;
            Action::WriteText { path, text }
        }
    }

    /// Processes clip number `clip`, found to be `total` long.
    fn process(&mut self, clip: usize, total: Seconds) -> (action: Action)
        requires
            clip < old(self)@.state.clips.len(),
        ensures
            final(self)@.plan == old(self)@.plan,
            final(self)@.state.clips == old(self)@.state.clips,
            (final(self)@.state.phase, action@) == process_clip(
                old(self)@.plan,
                old(self)@.state.clips,
                clip as nat,
                total.micros as int,
            ),
    {
        let (fade_in, fade_out) = if clip < self.fades.len() {
            self.fades[clip]
        } else {
            (Seconds { micros: 0 }, Seconds { micros: 0 })
        };
        let target = self.clip_file(clip);
        if fade_in.micros > 0 || fade_out.micros > 0 {
            let args = fade(
                self.clips[clip].as_str(),
                target.as_str(),
                Some(fade_in),
                Some(fade_out),
                total,
            );
            self.phase = ConcatPhase::Fading { clip };
            Action::Run { stage: Stage::Fade, args }
        } else {
            let from = self.clips[clip].clone();
            self.phase = ConcatPhase::Copying { clip };
            Action::CopyFile { from, to: target }
        }
    }

    /// Takes the event that answers the action handed out last, and hands out
    /// the next action.
    pub fn step(&mut self, event: &Event) -> (action: Action)
        ensures
            final(self)@.plan == old(self)@.plan,
            (final(self)@.state, action@) == concat_step(old(self)@.plan, old(self)@.state, event@),
    {
        proof {
            use_type_invariant(&*self);
        }
        let phase = self.phase;
        match (phase, event) {
            (ConcatPhase::ListForPlain, Event::Text(Ok(text))) => {
                let paths = parse_concat_list(text.as_str());
                if paths.len() == 0 {
                    self.end(
                        Err(
                            ExportError::plain(
                                ErrorKind::Validation,
                                "No valid input files found in concat list",
                            ),
                        ),
                    )
                } else {
                    let args = concat_demuxer(
                        self.list_path.as_str(),
                        self.output.as_str(),
                        self.resolution,
                    );
                    self.phase = ConcatPhase::Demuxer;
                    Action::Run { stage: Stage::ConcatDemuxer, args }
                }
            },
            (ConcatPhase::ListForPlain, Event::Text(Err(reason))) => self.end_outside(
                "Failed to read concat list: ",
                reason.as_str(),
            ),
            (ConcatPhase::Demuxer, Event::Process(outcome)) => {
                match check_exit(Stage::ConcatDemuxer, outcome) {
                    Ok(code) => self.end(Ok(code)),
                    Err(_) => {
                        self.phase = ConcatPhase::ListForFilter;
                        Action::ReadText { path: self.list_path.clone() }
                    },
                }
            },
            (ConcatPhase::ListForFilter, Event::Text(Ok(text))) => {
                let paths = parse_concat_list(text.as_str());
                match concat_filter(&paths, self.output.as_str(), self.resolution) {
                    Ok(args) => {
                        self.phase = ConcatPhase::Filter;
                        Action::Run { stage: Stage::FilterConcat, args }
                    },
                    Err(error) => self.end(Err(error)),
                }
            },
            (ConcatPhase::ListForFilter, Event::Text(Err(reason))) => self.end_outside(
                "Failed to read concat list: ",
                reason.as_str(),
            ),
            (ConcatPhase::Filter, Event::Process(outcome)) => {
                let result = check_exit(Stage::FilterConcat, outcome);
                self.end(result)
            },
            (ConcatPhase::ListForFades, Event::Text(Ok(text))) => {
                let paths = parse_concat_list(text.as_str());
                if paths.len() == 0 {
                    self.end(
                        Err(
                            ExportError::plain(
                                ErrorKind::Validation,
                                "No valid input files found in concat list",
                            ),
                        ),
                    )
                } else {
                    self.clips = paths;
                    self.phase = ConcatPhase::Workspace;
                    Action::MakeDir { path: self.workspace.clone() }
                }
            },
            (ConcatPhase::ListForFades, Event::Text(Err(reason))) => self.end_outside(
                "Failed to read concat list: ",
                reason.as_str(),
            ),
            (ConcatPhase::Workspace, Event::Done(Ok(_))) => self.turn_to(0),
            (ConcatPhase::Workspace, Event::Done(Err(reason))) => self.end_outside(
                "Failed to create temp directory: ",
                reason.as_str(),
            ),
            (ConcatPhase::Probing { clip }, Event::Process(outcome)) => {
                match probe_duration(outcome) {
                    Ok(total) => self.process(clip, total),
                    Err(error) => self.end(Err(error)),
                }
            },
            (ConcatPhase::Fading { clip }, Event::Process(outcome)) => {
                match check_exit(Stage::Fade, outcome) {
                    Ok(_) => self.turn_to(clip + 1),
                    Err(error) => self.end(Err(error)),
                }
            },
            (ConcatPhase::Copying { clip }, Event::Done(Ok(_))) => self.turn_to(clip + 1),
            (ConcatPhase::Copying { clip }, Event::Done(Err(reason))) => self.end_outside(
                "Failed to copy file: ",
                reason.as_str(),
            ),
            (ConcatPhase::WritingList, Event::Done(Ok(_))) => {
                let list = join_path(self.workspace.as_str(), "processed_list.txt");
                let args = concat_demuxer(list.as_str(), self.output.as_str(), self.resolution);
                self.phase = ConcatPhase::Joining;
                Action::Run { stage: Stage::ConcatDemuxer, args }
            },
            (ConcatPhase::WritingList, Event::Done(Err(reason))) => self.end_outside(
                "Failed to write temp concat list: ",
                reason.as_str(),
            ),
            (ConcatPhase::Joining, Event::Process(outcome)) => {
                match check_exit(Stage::ConcatDemuxer, outcome) {
                    Ok(code) => self.end(Ok(code)),
                    Err(_) => {
                        let outputs = self.clip_files();
                        let args = filter_concat(
                            &outputs,
                            self.output.as_str(),
                            self.resolution,
                        );
                        self.phase = ConcatPhase::Rejoining;
                        Action::Run { stage: Stage::FilterConcat, args }
                    },
                }
            },
            (ConcatPhase::Rejoining, Event::Process(outcome)) => {
                let result = check_exit(Stage::FilterConcat, outcome);
                self.end(result)
            },
            _ => self.end(Err(unexpected())),
        }
    }

    /// Where the export stands.
    pub fn phase(&self) -> (phase: ConcatPhase)
        ensures
            phase == self@.state.phase,
    {
        self.phase
    }
}

} // verus!
