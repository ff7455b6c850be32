//! The progress events of a run, whatever its driver reports.

use vstd::prelude::*;
use crate::modpack::{lemma_step_keeps_wf, session_wf, sync_step, total_of};
use crate::progress::{lemma_percent_bounds, Phase, ProgressView};
use crate::session::{
    event_wf, out_of_sequence, ActionView, EventView, SessionView, Stage,
};

verus! {

/// The progress events that the engine emits, in order, when it is in state
/// `s` and is given the reports `events` one after the other.
pub open spec fn emitted_from(s: SessionView, events: Seq<EventView>) -> Seq<ProgressView>
    decreases events.len(),
{
    if events.len() == 0 {
        Seq::empty()
    } else {
        let (next, action) = sync_step(s, events[0]);
        let rest = emitted_from(next, events.drop_first());
        match action {
            ActionView::Emit(event) => seq![event] + rest,
            _ => rest,
        }
    }
}

/// The state that the engine is in after it was in state `s` and was given
/// the reports `events` one after the other.
pub open spec fn state_after(s: SessionView, events: Seq<EventView>) -> SessionView
    decreases events.len(),
{
    if events.len() == 0 {
        s
    } else {
        state_after(sync_step(s, events[0]).0, events.drop_first())
    }
}

/// The actions that the engine asks for, in order, when it is in state `s`
/// and is given the reports `events` one after the other.
pub open spec fn actions_from(s: SessionView, events: Seq<EventView>) -> Seq<ActionView>
    decreases events.len(),
{
    if events.len() == 0 {
        Seq::empty()
    } else {
        let (next, action) = sync_step(s, events[0]);
        seq![action] + actions_from(next, events.drop_first())
    }
}

/// A run that is over answers every further report with the same refusal and
/// asks for nothing.
pub proof fn lemma_over_is_over(s: SessionView, events: Seq<EventView>)
    requires
        s.stage == Stage::Finished,
    ensures
        actions_from(s, events).len() == events.len(),
        forall|k: int|
            0 <= k < events.len() ==> #[trigger] actions_from(s, events)[k] == ActionView::Failed(
                out_of_sequence(),
            ),
    decreases events.len(),
{
    if events.len() > 0 {
        let (next, action) = sync_step(s, events[0]);
        lemma_over_is_over(next, events.drop_first());
        let rest = actions_from(next, events.drop_first());
        assert forall|k: int| 0 <= k < events.len() implies #[trigger] actions_from(s, events)[k]
            == ActionView::Failed(out_of_sequence()) by {
            if k > 0 {
                assert(actions_from(s, events)[k] == rest[k - 1]);
            }
        }
    }
}

/// What one step emits: the event, if the action is to emit one.
pub open spec fn emitted_by(action: ActionView) -> Seq<ProgressView> {
    match action {
        ActionView::Emit(event) => seq![event],
        _ => Seq::empty(),
    }
}

/// One more report adds one more step at the end.
pub proof fn lemma_one_more_report(s: SessionView, events: Seq<EventView>, report: EventView)
    ensures
        state_after(s, events.push(report)) == sync_step(state_after(s, events), report).0,
        emitted_from(s, events.push(report)) == emitted_from(s, events) + emitted_by(
            sync_step(state_after(s, events), report).1,
        ),
    decreases events.len(),
{
    let longer = events.push(report);
    if events.len() == 0 {
        assert(longer.drop_first() =~= Seq::<EventView>::empty());
        assert(longer[0] == report);
        let (next, action) = sync_step(s, report);
        assert(state_after(next, longer.drop_first()) == next);
        assert(emitted_from(next, longer.drop_first()) =~= Seq::<ProgressView>::empty());
        assert(emitted_from(s, longer) =~= emitted_from(s, events) + emitted_by(action));
    } else {
        let (next, action) = sync_step(s, events[0]);
        assert(longer[0] == events[0]);
        assert(longer.drop_first() =~= events.drop_first().push(report));
        lemma_one_more_report(next, events.drop_first(), report);
        let last = sync_step(state_after(s, events), report).1;
        assert(emitted_from(s, longer) =~= emitted_from(s, events) + emitted_by(last));
    }
}

/// What holds of every progress event of a run: the percentage is known and
/// at most 100, and the count stands at nothing before the entries, below the
/// total while they are dealt with, and at the total when all is done.
pub open spec fn event_in_range(event: ProgressView) -> bool {
    &&& event.percentage matches Some(percentage) && percentage <= 100
    &&& match event.phase {
        Phase::Preparing | Phase::Removing => event.current == 0,
        Phase::Downloading | Phase::Installing | Phase::UpToDate => event.current < event.total,
        Phase::Complete => event.current == event.total,
    }
}

/// The events are in range, their counts never fall, all carry one total,
/// and a closing event comes last.
pub open spec fn orderly(trace: Seq<ProgressView>) -> bool {
    &&& forall|k: int| 0 <= k < trace.len() ==> event_in_range(#[trigger] trace[k])
    &&& forall|j: int, k: int|
        0 <= j <= k < trace.len() ==> (#[trigger] trace[j]).current <= (#[trigger] trace[k]).current
    &&& forall|j: int, k: int|
        0 <= j < trace.len() && 0 <= k < trace.len() ==> (#[trigger] trace[j]).total
            == (#[trigger] trace[k]).total
    &&& forall|k: int|
        0 <= k < trace.len() && (#[trigger] trace[k]).phase == Phase::Complete ==> k == trace.len()
            - 1
}

/// The count that no later event of a run in state `s` falls below.
pub open spec fn count_floor(s: SessionView) -> int {
    match s.stage {
        Stage::AnnouncingUpToDate | Stage::AnnouncingDownload | Stage::Downloading
        | Stage::AnnouncingInstalled => s.cursor as int,
        Stage::Persisting | Stage::AnnouncingComplete | Stage::Finished => s.remote.files.len() as int,
        _ => 0,
    }
}

/// Whether the remote manifest has arrived in state `s`.
pub open spec fn remote_known(s: SessionView) -> bool {
    s.stage != Stage::Idle && s.stage != Stage::FetchingRemote
}

/// Whether a run in state `s` emits nothing more.
pub open spec fn silent(s: SessionView) -> bool {
    s.stage == Stage::AnnouncingComplete || s.stage == Stage::Finished
}

/// What one step does to the count.
pub proof fn lemma_step_progress(s: SessionView, event: EventView)
    requires
        session_wf(s),
        event_wf(event),
    ensures
        ({
            let (next, action) = sync_step(s, event);
            &&& session_wf(next)
            &&& (remote_known(s) ==> remote_known(next) && next.remote == s.remote)
            &&& count_floor(s) <= count_floor(next)
            &&& (silent(s) ==> silent(next) && !(action is Emit))
            &&& (action matches ActionView::Emit(emitted) ==> {
                &&& remote_known(s)
                &&& event_in_range(emitted)
                &&& emitted.total == total_of(s.remote)
                &&& count_floor(s) <= emitted.current <= count_floor(next)
                &&& (emitted.phase == Phase::Complete ==> silent(next))
            })
        }),
{
    lemma_step_keeps_wf(s, event);
    let count = s.remote.files.len() as int;
    lemma_percent_bounds(s.cursor as int, count);
    lemma_percent_bounds(s.cursor as int + 1, count);
    lemma_percent_bounds(0, count);
}

/// A run that emits nothing more emits nothing more.
pub proof fn lemma_silent(s: SessionView, events: Seq<EventView>)
    requires
        session_wf(s),
        silent(s),
        forall|i: int| 0 <= i < events.len() ==> event_wf(#[trigger] events[i]),
    ensures
        emitted_from(s, events).len() == 0,
    decreases events.len(),
{
    if events.len() > 0 {
        lemma_step_progress(s, events[0]);
        let rest = events.drop_first();
        assert forall|i: int| 0 <= i < rest.len() implies event_wf(#[trigger] rest[i]) by {
            assert(rest[i] == events[i + 1]);
        }
        lemma_silent(sync_step(s, events[0]).0, rest);
    }
}

/// From any state the events to come are orderly, none falls below the
/// state's floor, and once the remote manifest is known all carry its number
/// of entries as their total.
pub proof fn lemma_orderly_from(s: SessionView, events: Seq<EventView>)
    requires
        session_wf(s),
        forall|i: int| 0 <= i < events.len() ==> event_wf(#[trigger] events[i]),
    ensures
        orderly(emitted_from(s, events)),
        forall|k: int|
            0 <= k < emitted_from(s, events).len() ==> count_floor(s) <= (#[trigger] emitted_from(
                s,
                events,
            )[k]).current,
        remote_known(s) ==> forall|k: int|
            0 <= k < emitted_from(s, events).len() ==> (#[trigger] emitted_from(s, events)[k]).total
                == total_of(s.remote),
    decreases events.len(),
{
    let trace = emitted_from(s, events);
    if events.len() > 0 {
        let (next, action) = sync_step(s, events[0]);
        let tail = events.drop_first();
        let rest = emitted_from(next, tail);
        lemma_step_progress(s, events[0]);
        assert forall|i: int| 0 <= i < tail.len() implies event_wf(#[trigger] tail[i]) by {
            assert(tail[i] == events[i + 1]);
        }
        lemma_orderly_from(next, tail);
        match action {
            ActionView::Emit(emitted) => {
                assert(trace == seq![emitted] + rest);
                assert(trace[0] == emitted);
                assert forall|k: int| 1 <= k < trace.len() implies trace[k] == rest[k - 1] by {}
                if emitted.phase == Phase::Complete {
                    lemma_silent(next, tail);
                }
                assert forall|k: int| 0 <= k < trace.len() implies event_in_range(
                    #[trigger] trace[k],
                ) by {
                    if k > 0 {
                        assert(trace[k] == rest[k - 1]);
                    }
                }
                assert forall|j: int, k: int| 0 <= j <= k < trace.len() implies (#[trigger] trace[j]).current
                    <= (#[trigger] trace[k]).current by {
                    if k > 0 {
                        assert(trace[k] == rest[k - 1]);
                        if j > 0 {
                            assert(trace[j] == rest[j - 1]);
                        }
                    }
                }
                assert forall|j: int, k: int|
                    0 <= j < trace.len() && 0 <= k < trace.len() implies (#[trigger] trace[j]).total
                    == (#[trigger] trace[k]).total by {
                    if k > 0 {
                        assert(trace[k] == rest[k - 1]);
                    }
                    if j > 0 {
                        assert(trace[j] == rest[j - 1]);
                    }
                }
                assert forall|k: int|
                    0 <= k < trace.len() && (#[trigger] trace[k]).phase
                        == Phase::Complete implies k == trace.len() - 1 by {
                    if k > 0 {
                        assert(trace[k] == rest[k - 1]);
                    }
                }
                assert forall|k: int| 0 <= k < trace.len() implies count_floor(s) <= (#[trigger] trace[k]).current by {
                    if k > 0 {
                        assert(trace[k] == rest[k - 1]);
                    }
                }
                assert forall|k: int| 0 <= k < trace.len() implies (#[trigger] trace[k]).total
                    == total_of(s.remote) by {
                    if k > 0 {
                        assert(trace[k] == rest[k - 1]);
                    }
                }
            },
            _ => {
                assert(trace == rest);
            },
        }
    }
}

} // verus!
