//! The polling loop as a state machine. The caller sleeps, samples and
//! sends; [`step`] decides what comes next.

use vstd::prelude::*;
use crate::config::{registry, Configuration, SourceKind};
use crate::osc::{datagram, encode_snapshot, reads_back};
use crate::text::nul_free;
use crate::snapshot::{
    get_info, join_lines, lemma_one_segment_per_source, outputs_of, single_line, snapshot_text,
    split_lines,
};
use crate::sources::{Info, Provider};

verus! {

/// Where the loop stands.
#[derive(Clone, Copy, Debug, PartialEq, Eq, Structural)]
pub enum LoopState {
    /// Polling; the state the loop starts in.
    Running,
    /// Done for good: nothing is sent any more.
    Stopped,
}

/// What the caller reports to the loop.
#[derive(Debug, PartialEq, Eq)]
pub enum Event {
    /// An iteration begins; `cancelled` is the cancellation signal as read
    /// just now.
    Tick { cancelled: bool },
    /// The sleep is over and the sources were sampled.
    Sampled(Vec<Provider>),
    /// The transport took the datagram (`ok`) or failed to.
    Delivered { ok: bool },
}

/// What the loop asks of the caller.
#[derive(Debug, PartialEq, Eq)]
pub enum Action {
    /// Release the transport and leave.
    Stop,
    /// Sleep for so many seconds, then sample the sources.
    Sleep { seconds: u64 },
    /// Nothing to deliver; begin the next iteration.
    Skip,
    /// Send `datagram`, which carries `text`, and report how that went.
    Send { text: String, datagram: Vec<u8> },
    /// Tell the operator whether the snapshot went out; then begin the
    /// next iteration.
    Report { delivered: bool },
}

/// An event as the contracts see it.
pub enum EventView {
    Tick { cancelled: bool },
    Sampled(Seq<Provider>),
    Delivered { ok: bool },
}

/// An action as the contracts see it.
pub enum ActionView {
    Stop,
    Sleep { seconds: nat },
    Skip,
    Send { text: Seq<char>, datagram: Seq<u8> },
    Report { delivered: bool },
}

impl View for Event {
    type V = EventView;

    open spec fn view(&self) -> EventView {
        match self {
            Event::Tick { cancelled } => EventView::Tick { cancelled: *cancelled },
            Event::Sampled(providers) => EventView::Sampled(providers@),
            Event::Delivered { ok } => EventView::Delivered { ok: *ok },
        }
    }
}

impl View for Action {
    type V = ActionView;

    open spec fn view(&self) -> ActionView {
        match self {
            Action::Stop => ActionView::Stop,
            Action::Sleep { seconds } => ActionView::Sleep { seconds: *seconds as nat },
            Action::Skip => ActionView::Skip,
            Action::Send { text, datagram } => ActionView::Send {
                text: text@,
                datagram: datagram@,
            },
            Action::Report { delivered } => ActionView::Report { delivered: *delivered },
        }
    }
}

/// The transition of the loop that polls every `interval` seconds: the
/// state it moves to and the action it asks for.
///
/// A stopped loop stays stopped. A running loop stops when an iteration
/// begins with the cancellation signal set, and otherwise sleeps; it sends
/// the snapshot of the samples unless that snapshot is empty; and it
/// reports the outcome of a send, good or bad, and goes on running.
pub open spec fn next(state: LoopState, interval: nat, event: EventView) -> (LoopState, ActionView) {
    match state {
        LoopState::Stopped => (LoopState::Stopped, ActionView::Stop),
        LoopState::Running => match event {
            EventView::Tick { cancelled } => if cancelled {
                (LoopState::Stopped, ActionView::Stop)
            } else {
                (LoopState::Running, ActionView::Sleep { seconds: interval })
            },
            EventView::Sampled(providers) => {
                let text = snapshot_text(outputs_of(providers));
                if text.len() == 0 {
                    (LoopState::Running, ActionView::Skip)
                } else {
                    (LoopState::Running, ActionView::Send { text, datagram: datagram(text) })
                }
            },
            EventView::Delivered { ok } => (LoopState::Running, ActionView::Report { delivered: ok }),
        },
    }
}

/// One transition of the loop: see [`next`]. Whatever datagram it asks to
/// send, a receiver reads the snapshot back from it unchanged.
pub fn step(state: LoopState, config: &Configuration, event: Event) -> (out: (LoopState, Action))
    ensures
        (out.0, out.1@) == next(state, config@.interval, event@),
        out.1@ matches ActionView::Send { text, datagram: bytes } ==> nul_free(text) && reads_back(
            bytes,
            text,
        ),
{
    match state {
        LoopState::Stopped => (LoopState::Stopped, Action::Stop),
        LoopState::Running => match event {
            Event::Tick { cancelled } => if cancelled {
                (LoopState::Stopped, Action::Stop)
            } else {
                (LoopState::Running, Action::Sleep { seconds: config.interval() })
            },
            Event::Sampled(providers) => {
                let text = get_info(&providers);
                if text.as_str().is_empty() {
                    (LoopState::Running, Action::Skip)
                } else {
                    let datagram = encode_snapshot(text.as_str());
                    (LoopState::Running, Action::Send { text, datagram })
                }
            },
            Event::Delivered { ok } => (LoopState::Running, Action::Report { delivered: ok }),
        },
    }
}

/// The state of a loop that started in `state` and has answered `events`.
pub open spec fn state_after(state: LoopState, interval: nat, events: Seq<EventView>) -> LoopState
    decreases events.len(),
{
    if events.len() == 0 {
        state
    } else {
        next(state_after(state, interval, events.drop_last()), interval, events.last()).0
    }
}

/// The action with which a loop that started in `state` answers the event
/// `events[at]`, having answered those before it.
pub open spec fn action_at(state: LoopState, interval: nat, events: Seq<EventView>, at: int) -> ActionView
    recommends
        0 <= at < events.len(),
{
    next(state_after(state, interval, events.take(at)), interval, events[at]).1
}

/// The kinds of `providers`, in their order.
pub open spec fn kinds_of(providers: Seq<Provider>) -> Seq<SourceKind> {
    Seq::new(providers.len(), |i: int| providers[i].kind())
}

/// A stopped loop stays stopped, whatever it is told.
pub proof fn lemma_stopped_is_final(interval: nat, events: Seq<EventView>)
    ensures
        state_after(LoopState::Stopped, interval, events) == LoopState::Stopped,
    decreases events.len(),
{
    if events.len() > 0 {
        lemma_stopped_is_final(interval, events.drop_last());
    }
}

/// The states that a loop passes through chain up: answering `events` from
/// `state` is answering the first `split` of them and then the rest.
pub proof fn lemma_state_after_split(state: LoopState, interval: nat, events: Seq<EventView>, split: int)
    requires
        0 <= split <= events.len(),
    ensures
        state_after(state, interval, events) == state_after(
            state_after(state, interval, events.take(split)),
            interval,
            events.skip(split),
        ),
    decreases events.len(),
{
    if split == events.len() {
        assert(events.take(split) =~= events);
        assert(events.skip(split) =~= Seq::empty());
    } else {
        let shorter = events.drop_last();
        lemma_state_after_split(state, interval, shorter, split);
        assert(shorter.take(split) =~= events.take(split));
        assert(events.skip(split).drop_last() =~= shorter.skip(split));
        assert(events.skip(split).last() == events.last());
    }
}

/// Cancellation: an iteration that begins with the cancellation signal set
/// stops the loop, and from then on the loop asks for nothing but to stop.
/// Whatever it is told afterwards, it sends no datagram and sleeps no more.
pub proof fn lemma_cancelled_sends_nothing(
    state: LoopState,
    interval: nat,
    events: Seq<EventView>,
    seen: int,
    later: int,
)
    requires
        0 <= seen <= later < events.len(),
        events[seen] == (EventView::Tick { cancelled: true }),
    ensures
        action_at(state, interval, events, seen) == ActionView::Stop,
        action_at(state, interval, events, later) == ActionView::Stop,
        state_after(state, interval, events.take(later + 1)) == LoopState::Stopped,
        state_after(state, interval, events) == LoopState::Stopped,
{
    let up_to_seen = events.take(seen + 1);
    assert(up_to_seen.drop_last() =~= events.take(seen));
    assert(up_to_seen.last() == events[seen]);
    assert(state_after(state, interval, up_to_seen) == LoopState::Stopped);
    lemma_state_after_split(state, interval, events, seen + 1);
    lemma_stopped_is_final(interval, events.skip(seen + 1));
    let up_to_later = events.take(later + 1);
    lemma_state_after_split(state, interval, up_to_later, seen + 1);
    assert(up_to_later.take(seen + 1) =~= up_to_seen);
    lemma_stopped_is_final(interval, up_to_later.skip(seen + 1));
    if seen < later {
        let before_later = events.take(later);
        lemma_state_after_split(state, interval, before_later, seen + 1);
        assert(before_later.take(seen + 1) =~= up_to_seen);
        lemma_stopped_is_final(interval, before_later.skip(seen + 1));
    }
}

/// A datagram goes out only from a running loop, only in answer to
/// samples, and never for an empty snapshot; what goes out is the snapshot
/// of those samples, framed.
pub proof fn lemma_send_only_snapshots(state: LoopState, interval: nat, event: EventView)
    ensures
        next(state, interval, event).1 matches ActionView::Send { text, datagram: bytes } ==> {
            &&& state == LoopState::Running
            &&& event matches EventView::Sampled(providers)
            &&& text == snapshot_text(outputs_of(providers))
            &&& text.len() > 0
            &&& bytes == datagram(text)
        },
{
}

/// With no source switched on, the registry is empty, the snapshot of
/// what the registry's sources report is empty, and the loop skips the
/// delivery for that tick.
pub proof fn lemma_nothing_enabled_nothing_sent(
    enabled: Set<SourceKind>,
    interval: nat,
    providers: Seq<Provider>,
)
    requires
        forall|kind: SourceKind| !enabled.contains(kind),
        kinds_of(providers) == registry(enabled),
    ensures
        registry(enabled).len() == 0,
        snapshot_text(outputs_of(providers)).len() == 0,
        next(LoopState::Running, interval, EventView::Sampled(providers)) == (
            LoopState::Running,
            ActionView::Skip,
        ),
{
    assert(kinds_of(providers).len() == 0);
    assert(outputs_of(providers) =~= Seq::empty());
    assert(snapshot_text(Seq::empty()) =~= Seq::empty()) by {
        reveal(Seq::filter);
    }
}

/// One line per source: with at least one source switched on, and every
/// source of the registry reporting something, the snapshot is what they
/// report, in the order of the registry, with one newline between
/// neighbours. If, besides, no report holds a newline of its own, then the
/// snapshot read line by line is exactly the reports, one line for each
/// source that is switched on.
pub proof fn lemma_one_line_per_enabled_source(enabled: Set<SourceKind>, providers: Seq<Provider>)
    requires
        exists|kind: SourceKind| enabled.contains(kind),
        kinds_of(providers) == registry(enabled),
        forall|i: int| 0 <= i < providers.len() ==> (#[trigger] providers[i]).line().len() > 0,
    ensures
        providers.len() == registry(enabled).len() >= 1,
        forall|i: int| 0 <= i < providers.len() ==> (#[trigger] providers[i]).kind() == registry(enabled)[i],
        snapshot_text(outputs_of(providers)) == join_lines(outputs_of(providers)),
        (forall|i: int| 0 <= i < providers.len() ==> single_line((#[trigger] providers[i]).line()))
            ==> split_lines(snapshot_text(outputs_of(providers))) == outputs_of(providers),
{
    crate::config::lemma_registry(enabled);
    let outputs = outputs_of(providers);
    assert(kinds_of(providers).len() == providers.len());
    assert forall|i: int| 0 <= i < providers.len() implies (#[trigger] providers[i]).kind()
        == registry(enabled)[i] by {
        assert(kinds_of(providers)[i] == providers[i].kind());
    }
    assert forall|i: int| 0 <= i < outputs.len() implies (#[trigger] outputs[i]).len() > 0 by {
        assert(outputs[i] == providers[i].line());
    }
    lemma_one_segment_per_source(outputs);
    if forall|i: int| 0 <= i < providers.len() ==> single_line((#[trigger] providers[i]).line()) {
        assert forall|i: int| 0 <= i < outputs.len() implies single_line(#[trigger] outputs[i]) by {
            assert(outputs[i] == providers[i].line());
        }
    }
}

} // verus!
