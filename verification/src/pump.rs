//! The reader of a session: what it does with each thing it learns while
//! it drains the channel.

use vstd::prelude::*;
use vstd::string::StringExecFns;
use crate::text::{decode_lossy, utf8_lossy};

verus! {

/// Bytes asked for in one read of the channel.
pub const READ_BUFFER_LEN: usize = 8192;

/// Milliseconds the reader sleeps when the channel has nothing for it.
pub const IDLE_SLEEP_MILLIS: u64 = 10;

/// What the reader waits for next.
#[derive(Debug, Clone, Copy, PartialEq, Eq, Structural)]
pub enum Request {
    /// Whether the session is still alive.
    CheckAlive,
    /// The outcome of one read of at most `max` bytes from the channel.
    Read { max: usize },
    /// Whether the channel has reached its end.
    QueryEof,
    /// Nothing: the reader has finished.
    Exit,
}

/// How one read of the channel ended.
#[derive(Debug, Clone, PartialEq, Eq)]
pub enum ReadOutcome {
    /// The read returned these bytes; none at all if it returned 0.
    Data(Vec<u8>),
    /// The read would have had to wait.
    WouldBlock,
    /// The read was interrupted.
    Interrupted,
    /// The read failed for any other reason.
    Failed,
}

/// Something the reader has learnt.
#[derive(Debug, Clone, PartialEq, Eq)]
pub enum PumpEvent {
    Alive(bool),
    Read(ReadOutcome),
    Eof(bool),
}

/// What the reader does before it waits again.
#[derive(Debug, Clone, PartialEq, Eq)]
pub enum Effect {
    /// Nothing.
    Nothing,
    /// Publish terminal output under the topic `pty_output`.
    Output { channel_id: String, data: String },
    /// Publish the channel id under the topic `pty_closed`, clear the flag
    /// that says the session is alive, and take the session out of the
    /// registry.
    Closed { channel_id: String },
    /// Sleep for so many milliseconds.
    Sleep { millis: u64 },
}

/// `ReadOutcome` with its bytes as a sequence.
pub enum ReadOutcomeView {
    Data(Seq<u8>),
    WouldBlock,
    Interrupted,
    Failed,
}

/// `PumpEvent` with its bytes as a sequence.
pub enum PumpEventView {
    Alive(bool),
    Read(ReadOutcomeView),
    Eof(bool),
}

/// `Effect` with its texts as characters.
pub enum EffectView {
    Nothing,
    Output { channel_id: Seq<char>, data: Seq<char> },
    Closed { channel_id: Seq<char> },
    Sleep { millis: u64 },
}

impl View for ReadOutcome {
    type V = ReadOutcomeView;

    open spec fn view(&self) -> ReadOutcomeView {
        match self {
            ReadOutcome::Data(b) => ReadOutcomeView::Data(b@),
            ReadOutcome::WouldBlock => ReadOutcomeView::WouldBlock,
            ReadOutcome::Interrupted => ReadOutcomeView::Interrupted,
            ReadOutcome::Failed => ReadOutcomeView::Failed,
        }
    }
}

impl View for PumpEvent {
    type V = PumpEventView;

    open spec fn view(&self) -> PumpEventView {
        match self {
            PumpEvent::Alive(b) => PumpEventView::Alive(*b),
            PumpEvent::Read(r) => PumpEventView::Read(r@),
            PumpEvent::Eof(b) => PumpEventView::Eof(*b),
        }
    }
}

impl View for Effect {
    type V = EffectView;

    open spec fn view(&self) -> EffectView {
        match self {
            Effect::Nothing => EffectView::Nothing,
            Effect::Output { channel_id, data } => EffectView::Output {
                channel_id: channel_id@,
                data: data@,
            },
            Effect::Closed { channel_id } => EffectView::Closed { channel_id: channel_id@ },
            Effect::Sleep { millis } => EffectView::Sleep { millis: *millis },
        }
    }
}

/// What the reader of the session `id` does when it waits for `pending`
/// and learns `event`, and what it waits for afterwards.
///
/// A live session is read, 8 KiB at most at a time; a dead one ends the
/// reader without a word. Bytes are published as text, and the next round
/// begins. A read of no bytes asks whether the channel is at its end: if so
/// the session is declared closed and the reader ends, if not it sleeps for
/// 10 ms. A read that would block sleeps as long, an interrupted one is
/// retried at once, and any other failure declares the session closed. An
/// event that does not answer `pending` changes nothing, and a finished
/// reader stays finished.
pub open spec fn step_of(id: Seq<char>, pending: Request, event: PumpEventView) -> (
    EffectView,
    Request,
) {
    match (pending, event) {
        (Request::CheckAlive, PumpEventView::Alive(true)) => (
            EffectView::Nothing,
            Request::Read { max: READ_BUFFER_LEN },
        ),
        (Request::CheckAlive, PumpEventView::Alive(false)) => (EffectView::Nothing, Request::Exit),
        (Request::Read { .. }, PumpEventView::Read(ReadOutcomeView::Data(bytes))) => if bytes.len()
            > 0 {
            (EffectView::Output { channel_id: id, data: utf8_lossy(bytes) }, Request::CheckAlive)
        } else {
            (EffectView::Nothing, Request::QueryEof)
        },
        (Request::Read { .. }, PumpEventView::Read(ReadOutcomeView::WouldBlock)) => (
            EffectView::Sleep { millis: IDLE_SLEEP_MILLIS },
            Request::CheckAlive,
        ),
        (Request::Read { .. }, PumpEventView::Read(ReadOutcomeView::Interrupted)) => (
            EffectView::Nothing,
            Request::CheckAlive,
        ),
        (Request::Read { .. }, PumpEventView::Read(ReadOutcomeView::Failed)) => (
            EffectView::Closed { channel_id: id },
            Request::Exit,
        ),
        (Request::QueryEof, PumpEventView::Eof(true)) => (
            EffectView::Closed { channel_id: id },
            Request::Exit,
        ),
        (Request::QueryEof, PumpEventView::Eof(false)) => (
            EffectView::Sleep { millis: IDLE_SLEEP_MILLIS },
            Request::CheckAlive,
        ),
        _ => (EffectView::Nothing, pending),
    }
}

/// What the reader waits for after it has learnt `events` in turn, having
/// waited for `pending` before.
pub open spec fn pending_after(id: Seq<char>, pending: Request, events: Seq<PumpEventView>) -> Request
    decreases events.len(),
{
    if events.len() == 0 {
        pending
    } else {
        pending_after(id, step_of(id, pending, events[0]).1, events.drop_first())
    }
}

/// The effects of the reader, one for each of `events` in turn.
pub open spec fn effects_of(id: Seq<char>, pending: Request, events: Seq<PumpEventView>) -> Seq<
    EffectView,
>
    decreases events.len(),
{
    if events.len() == 0 {
        Seq::empty()
    } else {
        seq![step_of(id, pending, events[0]).0] + effects_of(
            id,
            step_of(id, pending, events[0]).1,
            events.drop_first(),
        )
    }
}

/// Whether every read among `events` that returned bytes comes while the
/// reader waits for a read.
pub open spec fn reads_awaited(id: Seq<char>, pending: Request, events: Seq<PumpEventView>) -> bool
    decreases events.len(),
{
    events.len() == 0 || ((events[0] matches PumpEventView::Read(ReadOutcomeView::Data(bytes))
        && bytes.len() > 0 ==> pending is Read) && reads_awaited(
        id,
        step_of(id, pending, events[0]).1,
        events.drop_first(),
    ))
}

/// Whether the reader, while it learns `events`, asks whether the session
/// is alive and is told that it is not.
pub open spec fn stopped_by_flag(id: Seq<char>, pending: Request, events: Seq<PumpEventView>) -> bool
    decreases events.len(),
{
    events.len() > 0 && ((pending == Request::CheckAlive && events[0] == PumpEventView::Alive(
        false,
    )) || stopped_by_flag(id, step_of(id, pending, events[0]).1, events.drop_first()))
}

/// How often `effects` declares the session closed.
pub open spec fn closed_count(effects: Seq<EffectView>) -> nat
    decreases effects.len(),
{
    if effects.len() == 0 {
        0
    } else {
        closed_count(effects.drop_first()) + if effects[0] is Closed {
            1nat
        } else {
            0nat
        }
    }
}

/// The texts that `effects` publishes as terminal output, in order.
pub open spec fn published(effects: Seq<EffectView>) -> Seq<Seq<char>>
    decreases effects.len(),
{
    if effects.len() == 0 {
        Seq::empty()
    } else {
        (match effects[0] {
            EffectView::Output { data, .. } => seq![data],
            _ => Seq::empty(),
        }) + published(effects.drop_first())
    }
}

/// The non-empty chunks of bytes that the reads among `events` returned,
/// in order.
pub open spec fn chunks(events: Seq<PumpEventView>) -> Seq<Seq<u8>>
    decreases events.len(),
{
    if events.len() == 0 {
        Seq::empty()
    } else {
        (match events[0] {
            PumpEventView::Read(ReadOutcomeView::Data(bytes)) => if bytes.len() > 0 {
                seq![bytes]
            } else {
                Seq::empty()
            },
            _ => Seq::empty(),
        }) + chunks(events.drop_first())
    }
}

/// A reader that has finished does nothing more.
pub proof fn lemma_finished_stays_finished(id: Seq<char>, events: Seq<PumpEventView>)
    ensures
        pending_after(id, Request::Exit, events) == Request::Exit,
        closed_count(effects_of(id, Request::Exit, events)) == 0,
        published(effects_of(id, Request::Exit, events)) == Seq::<Seq<char>>::empty(),
        !stopped_by_flag(id, Request::Exit, events),
    decreases events.len(),
{
    if events.len() > 0 {
        lemma_finished_stays_finished(id, events.drop_first());
        let e = effects_of(id, Request::Exit, events);
        assert(e.drop_first() =~= effects_of(id, Request::Exit, events.drop_first()));
        assert(published(e) =~= Seq::<Seq<char>>::empty());
    }
}

/// Whatever a reader learns, it declares its session closed at most once:
/// exactly once if it has finished without having been stopped by the flag,
/// and not at all if it is still running or was stopped by the flag.
pub proof fn lemma_closed_exactly_once(id: Seq<char>, pending: Request, events: Seq<PumpEventView>)
    requires
        pending != Request::Exit,
    ensures
        closed_count(effects_of(id, pending, events)) == if pending_after(id, pending, events)
            == Request::Exit && !stopped_by_flag(id, pending, events) {
            1nat
        } else {
            0nat
        },
    decreases events.len(),
{
    if events.len() > 0 {
        let (effect, next) = step_of(id, pending, events[0]);
        let e = effects_of(id, pending, events);
        assert(e.drop_first() =~= effects_of(id, next, events.drop_first()));
        if next == Request::Exit {
            lemma_finished_stays_finished(id, events.drop_first());
        } else {
            lemma_closed_exactly_once(id, next, events.drop_first());
        }
    }
}

/// When every read that returned bytes was awaited, the texts that the
/// reader publishes are the decoded chunks that the reads returned: each
/// chunk on its own, none left out, in the order of the reads.
pub proof fn lemma_output_in_order(id: Seq<char>, pending: Request, events: Seq<PumpEventView>)
    requires
        reads_awaited(id, pending, events),
    ensures
        published(effects_of(id, pending, events)) == chunks(events).map_values(
            |b: Seq<u8>| utf8_lossy(b),
        ),
    decreases events.len(),
{
    let decode = |b: Seq<u8>| utf8_lossy(b);
    if events.len() == 0 {
        assert(published(effects_of(id, pending, events)) =~= chunks(events).map_values(decode));
    } else {
        let (effect, next) = step_of(id, pending, events[0]);
        let e = effects_of(id, pending, events);
        assert(e.drop_first() =~= effects_of(id, next, events.drop_first()));
        lemma_output_in_order(id, next, events.drop_first());
        let head = chunks(events).subrange(
            0,
            chunks(events).len() - chunks(events.drop_first()).len(),
        );
        assert(chunks(events) =~= head + chunks(events.drop_first()));
        assert(published(e) =~= chunks(events).map_values(decode));
    }
}

/// What the reader has published after `first` stays as it is, and in its
/// place, when it learns `more`: later events only add to the end.
pub proof fn lemma_effects_append(
    id: Seq<char>,
    pending: Request,
    first: Seq<PumpEventView>,
    more: Seq<PumpEventView>,
)
    ensures
        effects_of(id, pending, first + more) == effects_of(id, pending, first) + effects_of(
            id,
            pending_after(id, pending, first),
            more,
        ),
        pending_after(id, pending, first + more) == pending_after(
            id,
            pending_after(id, pending, first),
            more,
        ),
    decreases first.len(),
{
    if first.len() == 0 {
        assert(first + more =~= more);
        assert(effects_of(id, pending, first + more) =~= effects_of(id, pending, first)
            + effects_of(id, pending_after(id, pending, first), more));
    } else {
        let next = step_of(id, pending, first[0]).1;
        assert((first + more).drop_first() =~= first.drop_first() + more);
        lemma_effects_append(id, next, first.drop_first(), more);
        assert(effects_of(id, pending, first + more) =~= effects_of(id, pending, first)
            + effects_of(id, pending_after(id, pending, first), more));
    }
}

/// The topic under which an effect is published, if it publishes.
pub open spec fn topic_of(effect: EffectView) -> Option<Seq<char>> {
    match effect {
        EffectView::Output { .. } => Some("pty_output"@),
        EffectView::Closed { .. } => Some("pty_closed"@),
        _ => None,
    }
}

/// The topic under which `effect` is published, if it publishes.
pub fn topic(effect: &Effect) -> (t: Option<&'static str>)
    ensures
        (match t {
            Some(name) => Some(name@),
            None => None,
        }) == topic_of(effect@),
{
    match effect {
        Effect::Output { .. } => Some("pty_output"),
        Effect::Closed { .. } => Some("pty_closed"),
        _ => None,
    }
}

/// What the reader of the session `channel_id` does on `event` while it
/// waits for `pending`, and what it waits for next.
pub fn pump_step(channel_id: &str, pending: Request, event: PumpEvent) -> (r: (Effect, Request))
    ensures
        (r.0@, r.1) == step_of(channel_id@, pending, event@),
{
    match (pending, event) {
        (Request::CheckAlive, PumpEvent::Alive(alive)) => if alive {
            (Effect::Nothing, Request::Read { max: READ_BUFFER_LEN })
        } else {
            (Effect::Nothing, Request::Exit)
        },
        (Request::Read { .. }, PumpEvent::Read(outcome)) => match outcome {
            ReadOutcome::Data(bytes) => if bytes.len() > 0 {
                (
                    Effect::Output {
                        channel_id: String::from_str(channel_id),
                        data: decode_lossy(&bytes),
                    },
                    Request::CheckAlive,
                )
            } else {
                (Effect::Nothing, Request::QueryEof)
            },
            ReadOutcome::WouldBlock => (
                Effect::Sleep { millis: IDLE_SLEEP_MILLIS },
                Request::CheckAlive,
            ),
            ReadOutcome::Interrupted => (Effect::Nothing, Request::CheckAlive),
            ReadOutcome::Failed => (
                Effect::Closed { channel_id: String::from_str(channel_id) },
                Request::Exit,
            ),
        },
        (Request::QueryEof, PumpEvent::Eof(eof)) => if eof {
            (Effect::Closed { channel_id: String::from_str(channel_id) }, Request::Exit)
        } else {
            (Effect::Sleep { millis: IDLE_SLEEP_MILLIS }, Request::CheckAlive)
        },
        (pending, _) => (Effect::Nothing, pending),
    }
}

} // verus!
