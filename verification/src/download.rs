//! The model of one logical download: its state, what can happen to it, and
//! what it does in answer.
//!
//! A download starts streaming at offset 0. Each chunk that arrives is handed
//! on and moves the offset by its length. When the body stream fails and the
//! server supports ranges, the download waits, sends the request again with a
//! `Range` header that starts at the offset, and goes on with the new body; the
//! consumer never sees the failure. Without range support, or when the new
//! request fails too, the failure ends the download.
//!
//! A resumed request is not checked against the first response: if the resource
//! changes in between, the bytes after the break belong to the new resource.

use crate::header::range_name;
use crate::range_header::{offset_named, range_names_its_offset, resume_entries};
use vstd::prelude::*;

verus! {

/// The seconds to wait before a request is sent again.
pub const RETRY_DELAY_SECS: u64 = 1;

/// Where a download stands.
#[derive(Clone, Copy, Debug, PartialEq, Eq, Structural)]
pub enum Phase {
    /// A body stream is live and is being polled.
    Streaming,
    /// The body stream failed; a request for the rest is under way.
    Resuming,
    /// The download has ended, with the end of the body or with a failure.
    Finished,
}

/// The state of a download.
pub ghost struct Download {
    /// Whether the server advertised support for byte ranges.
    pub accept_byte_ranges: bool,
    /// The number of bytes handed to the consumer so far.
    pub pos: nat,
    /// Where the download stands.
    pub phase: Phase,
}

/// What can happen to a download.
pub ghost enum Event {
    /// The body stream yielded these bytes.
    Chunk(Seq<u8>),
    /// The body stream ended.
    End,
    /// The body stream failed.
    Failed,
    /// The request for the rest was answered; its body is the live stream now.
    Resumed,
    /// The request for the rest failed.
    Refused,
}

/// What a download does in answer to an event.
pub ghost enum Action {
    /// Hand these bytes to the consumer.
    Yield(Seq<u8>),
    /// Tell the consumer that the body has ended.
    Finish,
    /// Hand the failure to the consumer; the download is over.
    Fail,
    /// Wait, then send the request again with these headers.
    Resume { delay_secs: nat, headers: Map<Seq<char>, Seq<u8>> },
    /// Poll the live body stream.
    Poll,
}

/// A download and what it did, event by event.
pub ghost struct Trace {
    /// The state after the last event.
    pub end: Download,
    /// The answer to each event, in order.
    pub actions: Seq<Action>,
}

impl Download {
    /// A download as it starts: streaming, with nothing delivered yet.
    pub open spec fn start(accept_byte_ranges: bool) -> Download {
        Download { accept_byte_ranges, pos: 0, phase: Phase::Streaming }
    }
}

/// One step of a download: the state after `event` and the answer to it, or
/// `None` where `event` cannot happen in this phase.
pub open spec fn step(state: Download, event: Event) -> Option<(Download, Action)> {
    match (state.phase, event) {
        (Phase::Streaming, Event::Chunk(bytes)) => Some(
            (Download { pos: state.pos + bytes.len(), ..state }, Action::Yield(bytes)),
        ),
        (Phase::Streaming, Event::End) => Some(
            (Download { phase: Phase::Finished, ..state }, Action::Finish),
        ),
        (Phase::Streaming, Event::Failed) => if state.accept_byte_ranges {
            Some(
                (
                    Download { phase: Phase::Resuming, ..state },
                    Action::Resume {
                        delay_secs: RETRY_DELAY_SECS as nat,
                        headers: resume_entries(state.pos),
                    },
                ),
            )
        } else {
            Some((Download { phase: Phase::Finished, ..state }, Action::Fail))
        },
        (Phase::Resuming, Event::Resumed) => Some(
            (Download { phase: Phase::Streaming, ..state }, Action::Poll),
        ),
        (Phase::Resuming, Event::Refused) => Some(
            (Download { phase: Phase::Finished, ..state }, Action::Fail),
        ),
        _ => None,
    }
}

/// A download that meets `events` in order, or `None` where one of them cannot
/// happen in the phase that the download is in by then.
pub open spec fn run(start: Download, events: Seq<Event>) -> Option<Trace>
    decreases events.len(),
{
    if events.len() == 0 {
        Some(Trace { end: start, actions: Seq::empty() })
    } else {
        match run(start, events.drop_last()) {
            Some(before) => match step(before.end, events.last()) {
                Some((end, action)) => Some(Trace { end, actions: before.actions.push(action) }),
                None => None,
            },
            None => None,
        }
    }
}

/// The bytes that the consumer was handed by `actions`, in order.
pub open spec fn delivered(actions: Seq<Action>) -> Seq<u8>
    decreases actions.len(),
{
    if actions.len() == 0 {
        Seq::empty()
    } else {
        delivered(actions.drop_last()) + match actions.last() {
            Action::Yield(bytes) => bytes,
            _ => Seq::empty(),
        }
    }
}

/// The chunks put end to end.
pub open spec fn joined(chunks: Seq<Seq<u8>>) -> Seq<u8>
    decreases chunks.len(),
{
    if chunks.len() == 0 {
        Seq::empty()
    } else {
        joined(chunks.drop_last()) + chunks.last()
    }
}

/// A body stream that yields `chunks`, one after the other.
pub open spec fn arrivals(chunks: Seq<Seq<u8>>) -> Seq<Event> {
    Seq::new(chunks.len(), |i: int| Event::Chunk(chunks[i]))
}

/// Handing on `chunks`, one after the other.
pub open spec fn yields(chunks: Seq<Seq<u8>>) -> Seq<Action> {
    Seq::new(chunks.len(), |i: int| Action::Yield(chunks[i]))
}

/// What was delivered by one run of actions after another is what each
/// delivered, put end to end.
pub proof fn lemma_delivered_add(first: Seq<Action>, second: Seq<Action>)
    ensures
        delivered(first + second) == delivered(first) + delivered(second),
    decreases second.len(),
{
    if second.len() == 0 {
        assert(first + second =~= first);
        assert(delivered(first) + delivered(second) =~= delivered(first));
    } else {
        assert((first + second).drop_last() =~= first + second.drop_last());
        assert((first + second).last() == second.last());
        lemma_delivered_add(first, second.drop_last());
        let tail = match second.last() {
            Action::Yield(bytes) => bytes,
            _ => Seq::empty(),
        };
        assert((delivered(first) + delivered(second.drop_last())) + tail =~= delivered(first) + (
        delivered(second.drop_last()) + tail));
    }
}

/// Handing on chunks delivers them put end to end.
pub proof fn lemma_delivered_yields(chunks: Seq<Seq<u8>>)
    ensures
        delivered(yields(chunks)) == joined(chunks),
    decreases chunks.len(),
{
    if chunks.len() > 0 {
        assert(yields(chunks).drop_last() =~= yields(chunks.drop_last()));
        lemma_delivered_yields(chunks.drop_last());
    }
}

/// Meeting one run of events after another is meeting the first, and then the
/// second from where the first ended.
pub proof fn lemma_run_add(start: Download, first: Seq<Event>, second: Seq<Event>)
    ensures
        run(start, first + second) == match run(start, first) {
            Some(before) => match run(before.end, second) {
                Some(after) => Some(
                    Trace { end: after.end, actions: before.actions + after.actions },
                ),
                None => None,
            },
            None => None,
        },
    decreases second.len(),
{
    if second.len() == 0 {
        assert(first + second =~= first);
        if let Some(before) = run(start, first) {
            assert(before.actions + Seq::<Action>::empty() =~= before.actions);
        }
    } else {
        assert((first + second).drop_last() =~= first + second.drop_last());
        assert((first + second).last() == second.last());
        lemma_run_add(start, first, second.drop_last());
        if let Some(before) = run(start, first) {
            if let Some(middle) = run(before.end, second.drop_last()) {
                if let Some((end, action)) = step(middle.end, second.last()) {
                    assert((before.actions + middle.actions).push(action) =~= before.actions
                        + middle.actions.push(action));
                }
            }
        }
    }
}

/// While a download streams, every chunk that arrives is handed on as it is,
/// and the offset moves by what was handed on.
pub proof fn lemma_run_arrivals(start: Download, chunks: Seq<Seq<u8>>)
    requires
        start.phase is Streaming,
    ensures
        run(start, arrivals(chunks)) == Some(
            Trace {
                end: Download { pos: start.pos + joined(chunks).len(), ..start },
                actions: yields(chunks),
            },
        ),
    decreases chunks.len(),
{
    if chunks.len() == 0 {
        assert(yields(chunks) =~= Seq::<Action>::empty());
    } else {
        assert(arrivals(chunks).drop_last() =~= arrivals(chunks.drop_last()));
        lemma_run_arrivals(start, chunks.drop_last());
        assert(yields(chunks.drop_last()).push(Action::Yield(chunks.last())) =~= yields(chunks));
    }
}

/// Meeting one more event is one more step from where the run so far ended.
pub proof fn lemma_run_push(start: Download, events: Seq<Event>, event: Event)
    ensures
        run(start, events.push(event)) == match run(start, events) {
            Some(before) => match step(before.end, event) {
                Some((end, action)) => Some(Trace { end, actions: before.actions.push(action) }),
                None => None,
            },
            None => None,
        },
{
    assert(events.push(event).drop_last() =~= events);
}

/// One more action delivers what the actions so far delivered, and the bytes of
/// the new action where it hands some on.
pub proof fn lemma_delivered_push(actions: Seq<Action>, action: Action)
    ensures
        delivered(actions.push(action)) == delivered(actions) + match action {
            Action::Yield(bytes) => bytes,
            _ => Seq::empty(),
        },
{
    assert(actions.push(action).drop_last() =~= actions);
}

/// The offset counts what was delivered: after any run, it has moved by the
/// number of bytes that the consumer was handed, and so it never moves back.
/// Range support is as it was at the start.
pub proof fn position_counts_delivered(start: Download, events: Seq<Event>)
    requires
        run(start, events) is Some,
    ensures
        run(start, events)->0.end.pos == start.pos + delivered(run(start, events)->0.actions).len(),
        run(start, events)->0.end.accept_byte_ranges == start.accept_byte_ranges,
        run(start, events)->0.actions.len() == events.len(),
    decreases events.len(),
{
    if events.len() > 0 {
        let before = run(start, events.drop_last())->0;
        position_counts_delivered(start, events.drop_last());
        let (end, action) = step(before.end, events.last())->0;
        lemma_delivered_push(before.actions, action);
    }
}

/// A download that has ended takes no further event.
pub proof fn finished_is_final(state: Download, event: Event)
    requires
        state.phase is Finished,
    ensures
        step(state, event) is None,
{
}

/// At most one request is under way: a download asks to resume only in answer
/// to a failure of the live body stream, and only when the server supports
/// byte ranges; it then asks for everything from its offset on, after the fixed
/// delay, and takes nothing but the outcome of that request next.
pub proof fn resume_is_anchored(state: Download, event: Event, after: Download, action: Action)
    requires
        step(state, event) == Some((after, action)),
        action is Resume,
    ensures
        state.phase is Streaming,
        state.accept_byte_ranges,
        event is Failed,
        action == (Action::Resume {
            delay_secs: RETRY_DELAY_SECS as nat,
            headers: resume_entries(state.pos),
        }),
        after == (Download { phase: Phase::Resuming, ..state }),
        forall|next: Event| #[trigger] step(after, next) is Some ==> next is Resumed || next is Refused,
{
}

/// Every request for the rest starts where delivery stands: whatever happens to
/// a download, when it asks to resume it asks, after the fixed delay, for
/// everything from the number of bytes that the consumer has been handed so
/// far. A server that honours the `Range` header therefore goes on with the
/// first byte that is missing: no byte is skipped and none comes twice.
pub proof fn resume_starts_where_delivery_stands(
    accept_byte_ranges: bool,
    events: Seq<Event>,
    i: int,
)
    requires
        run(Download::start(accept_byte_ranges), events) is Some,
        0 <= i < events.len(),
        run(Download::start(accept_byte_ranges), events)->0.actions[i] is Resume,
    ensures
        run(Download::start(accept_byte_ranges), events)->0.actions[i] == (Action::Resume {
            delay_secs: RETRY_DELAY_SECS as nat,
            headers: resume_entries(
                delivered(
                    run(Download::start(accept_byte_ranges), events)->0.actions.take(i),
                ).len(),
            ),
        }),
    decreases events.len(),
{
    let start = Download::start(accept_byte_ranges);
    let trace = run(start, events)->0;
    let before = run(start, events.drop_last())->0;
    position_counts_delivered(start, events);
    position_counts_delivered(start, events.drop_last());
    if i == events.len() - 1 {
        assert(trace.actions.take(i) =~= before.actions);
    } else {
        assert(trace.actions[i] == before.actions[i]);
        assert(trace.actions.take(i) =~= before.actions.take(i));
        resume_starts_where_delivery_stands(accept_byte_ranges, events.drop_last(), i);
    }
}

/// A download from a server that never fails: whatever the chunks are in which
/// the body arrives, each is handed on as it came and in order, so the consumer
/// gets the body exactly once, and then the end of the stream.
pub proof fn complete_delivery(accept_byte_ranges: bool, body: Seq<u8>, chunks: Seq<Seq<u8>>)
    requires
        joined(chunks) == body,
    ensures
        run(Download::start(accept_byte_ranges), arrivals(chunks).push(Event::End)) == Some(
            Trace {
                end: Download { accept_byte_ranges, pos: body.len(), phase: Phase::Finished },
                actions: yields(chunks).push(Action::Finish),
            },
        ),
        delivered(yields(chunks).push(Action::Finish)) == body,
{
    let start = Download::start(accept_byte_ranges);
    lemma_run_arrivals(start, chunks);
    lemma_run_push(start, arrivals(chunks), Event::End);
    lemma_delivered_yields(chunks);
    lemma_delivered_push(yields(chunks), Action::Finish);
    assert(joined(chunks) + Seq::<u8>::empty() =~= joined(chunks));
}

/// A download that breaks once and resumes: the server supports byte ranges,
/// the body stream fails after the first `k` bytes of the body, and the request
/// for the rest is answered with the body from byte `k` on. Then the download
/// asks for exactly that, `Range: bytes=<k>-`, after the fixed delay, and the
/// consumer gets the body exactly once and unbroken, whatever the chunks are in
/// which the two parts arrive. The failure is not shown. The header that is
/// sent names the offset `k`.
pub proof fn resumed_delivery(
    body: Seq<u8>,
    k: int,
    before: Seq<Seq<u8>>,
    after: Seq<Seq<u8>>,
)
    requires
        0 <= k <= body.len(),
        joined(before) == body.subrange(0, k),
        joined(after) == body.subrange(k, body.len() as int),
    ensures
        run(
            Download::start(true),
            arrivals(before) + seq![Event::Failed, Event::Resumed] + arrivals(after)
                + seq![Event::End],
        ) == Some(
            Trace {
                end: Download { accept_byte_ranges: true, pos: body.len(), phase: Phase::Finished },
                actions: yields(before) + seq![
                    Action::Resume {
                        delay_secs: RETRY_DELAY_SECS as nat,
                        headers: resume_entries(k as nat),
                    },
                    Action::Poll,
                ] + yields(after) + seq![Action::Finish],
            },
        ),
        delivered(
            yields(before) + seq![
                Action::Resume {
                    delay_secs: RETRY_DELAY_SECS as nat,
                    headers: resume_entries(k as nat),
                },
                Action::Poll,
            ] + yields(after) + seq![Action::Finish],
        ) == body,
        offset_named(resume_entries(k as nat)[range_name()]) == k,
{
    range_names_its_offset(k as nat);
    let start = Download::start(true);
    let resume = Action::Resume {
        delay_secs: RETRY_DELAY_SECS as nat,
        headers: resume_entries(k as nat),
    };
    let broken = arrivals(before).push(Event::Failed);
    let reissued = broken.push(Event::Resumed);
    let streamed = reissued + arrivals(after);
    let events = arrivals(before) + seq![Event::Failed, Event::Resumed] + arrivals(after)
        + seq![Event::End];
    let first = yields(before).push(resume).push(Action::Poll);
    let actions = yields(before) + seq![resume, Action::Poll] + yields(after) + seq![
        Action::Finish,
    ];
    assert(events =~= streamed.push(Event::End));
    assert(actions =~= (first + yields(after)).push(Action::Finish));

    lemma_run_arrivals(start, before);
    lemma_run_push(start, arrivals(before), Event::Failed);
    lemma_run_push(start, broken, Event::Resumed);
    let middle = Download { accept_byte_ranges: true, pos: k as nat, phase: Phase::Streaming };
    assert(run(start, reissued) == Some(Trace { end: middle, actions: first }));
    lemma_run_arrivals(middle, after);
    lemma_run_add(start, reissued, arrivals(after));
    lemma_run_push(start, streamed, Event::End);

    lemma_delivered_yields(before);
    lemma_delivered_push(yields(before), resume);
    lemma_delivered_push(yields(before).push(resume), Action::Poll);
    lemma_delivered_yields(after);
    lemma_delivered_add(first, yields(after));
    lemma_delivered_push(first + yields(after), Action::Finish);
    assert(body.subrange(0, k) + Seq::<u8>::empty() + Seq::<u8>::empty() + body.subrange(
        k,
        body.len() as int,
    ) + Seq::<u8>::empty() =~= body);
}

/// A download from a server without range support that breaks: the chunks that
/// came before the failure are handed on, then the failure itself, and the
/// download is over. No request is sent again.
pub proof fn failure_without_ranges(chunks: Seq<Seq<u8>>)
    ensures
        run(Download::start(false), arrivals(chunks).push(Event::Failed)) == Some(
            Trace {
                end: Download {
                    accept_byte_ranges: false,
                    pos: joined(chunks).len(),
                    phase: Phase::Finished,
                },
                actions: yields(chunks).push(Action::Fail),
            },
        ),
{
    let start = Download::start(false);
    lemma_run_arrivals(start, chunks);
    lemma_run_push(start, arrivals(chunks), Event::Failed);
}

/// Without range support no run of events ever leads to a request for the
/// rest: the download never asks to resume and is never found resuming.
pub proof fn never_resumes_without_ranges(start: Download, events: Seq<Event>)
    requires
        !start.accept_byte_ranges,
        !(start.phase is Resuming),
        run(start, events) is Some,
    ensures
        !(run(start, events)->0.end.phase is Resuming),
        forall|i: int|
            0 <= i < events.len() ==> !(#[trigger] run(start, events)->0.actions[i] is Resume),
    decreases events.len(),
{
    if events.len() > 0 {
        position_counts_delivered(start, events);
        position_counts_delivered(start, events.drop_last());
        never_resumes_without_ranges(start, events.drop_last());
    }
}

/// A request for the rest that fails ends the download with that failure: it
/// is not sent a second time.
pub proof fn failed_resumption_ends(chunks: Seq<Seq<u8>>)
    ensures
        run(
            Download::start(true),
            arrivals(chunks).push(Event::Failed).push(Event::Refused),
        ) == Some(
            Trace {
                end: Download {
                    accept_byte_ranges: true,
                    pos: joined(chunks).len(),
                    phase: Phase::Finished,
                },
                actions: yields(chunks).push(
                    Action::Resume {
                        delay_secs: RETRY_DELAY_SECS as nat,
                        headers: resume_entries(joined(chunks).len()),
                    },
                ).push(Action::Fail),
            },
        ),
{
    let start = Download::start(true);
    lemma_run_arrivals(start, chunks);
    lemma_run_push(start, arrivals(chunks), Event::Failed);
    lemma_run_push(start, arrivals(chunks).push(Event::Failed), Event::Refused);
}


} // verus!
