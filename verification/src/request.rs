//! The first request of a download: what to do with the outcome of each attempt
//! to send it.
//!
//! A failure of the transport is never shown to the caller: the request is sent
//! again after a fixed delay, as often as it takes. A request that could not be
//! built, that the redirect policy stopped or that was refused for its status
//! fails at once, because it would fail again. The caller bounds the time if it
//! must.

use crate::download::{Download, RETRY_DELAY_SECS};
use crate::failure::FailureKind;
use crate::header::{accept_ranges_of, header_entries};
use crate::ranges::advertises_byte_ranges;
use crate::stream::Response;
use reqwest::header::HeaderMap;
use reqwest::Error;
use vstd::prelude::*;

verus! {

/// What one attempt to send the first request gave.
pub ghost enum Attempt {
    /// A response, with these headers.
    Answered(Map<Seq<char>, Seq<u8>>),
    /// A failure of this kind.
    Failed(FailureKind),
}

/// What follows from one attempt.
pub ghost enum Verdict {
    /// Wait, then send the request again.
    Retry { delay_secs: nat },
    /// Give up and hand the failure to the caller.
    Fail,
    /// The download starts, in this state.
    Done(Download),
}

/// What the caller is to do after an attempt.
#[derive(Debug)]
pub enum SendStep {
    /// Wait for `delay_secs` seconds, then send the request again.
    Retry { delay_secs: u64 },
    /// Give up and hand this failure to the caller.
    Fail(Error),
    /// The response is in; this is what to keep of it.
    Done(Response),
}

impl View for SendStep {
    type V = Verdict;

    open spec fn view(&self) -> Verdict {
        match *self {
            SendStep::Retry { delay_secs } => Verdict::Retry { delay_secs: delay_secs as nat },
            SendStep::Fail(_) => Verdict::Fail,
            SendStep::Done(response) => Verdict::Done(response@),
        }
    }
}

/// The verdict on one attempt: a response starts the download, with range
/// support as its headers advertise it; a transient failure is retried after
/// the fixed delay; any other failure is final.
pub open spec fn verdict(attempt: Attempt) -> Verdict {
    match attempt {
        Attempt::Answered(entries) => Verdict::Done(
            Download::start(advertises_byte_ranges(accept_ranges_of(entries))),
        ),
        Attempt::Failed(kind) => if kind.is_transient() {
            Verdict::Retry { delay_secs: RETRY_DELAY_SECS as nat }
        } else {
            Verdict::Fail
        },
    }
}

/// What to do after an attempt that failed with `err`, a failure of this kind:
/// to wait and send again when the kind is transient, else to give up with
/// `err` itself.
pub fn after_failure(kind: FailureKind, err: Error) -> (step: SendStep)
    ensures
        step@ == verdict(Attempt::Failed(kind)),
        kind.is_transient() ==> step == (SendStep::Retry { delay_secs: RETRY_DELAY_SECS }),
        !kind.is_transient() ==> step == SendStep::Fail(err),
{
    if kind.retryable() {
        SendStep::Retry { delay_secs: RETRY_DELAY_SECS }
    } else {
        SendStep::Fail(err)
    }
}

/// The attempt that an outcome of sending stands for.
pub open spec fn attempted(outcome: Result<&HeaderMap, Error>) -> Attempt {
    match outcome {
        Ok(headers) => Attempt::Answered(header_entries(*headers)),
        Err(err) => Attempt::Failed(FailureKind::of_error(err)),
    }
}

/// What to do after an attempt: `outcome` holds the headers of the response, or
/// the failure.
///
/// A response ends the sending, whatever its status: what is kept of it is its
/// range support and offset 0. A failure of the transport is dropped and the
/// request is sent again after the fixed delay. Any other failure is handed
/// back as it is.
pub fn after_send(outcome: Result<&HeaderMap, Error>) -> (step: SendStep)
    ensures
        step@ == verdict(attempted(outcome)),
        outcome matches Err(err) ==> !FailureKind::of_error(err).is_transient() ==> step
            == SendStep::Fail(err),
{
    match outcome {
        Ok(headers) => SendStep::Done(Response::new(headers)),
        Err(err) => {
            let kind = FailureKind::of(&err);
            after_failure(kind, err)
        },
    }
}

/// How sending went: the delays waited, in order, and the verdict that ended
/// it, or `None` where every attempt so far was retried.
pub ghost struct Sending {
    /// The seconds waited before each retry.
    pub waits: Seq<nat>,
    /// The verdict that ended the sending.
    pub end: Option<Verdict>,
}

/// Sending the first request when the attempts go as `attempts` say, in order:
/// each attempt whose verdict is to retry is followed by a wait and by the next
/// attempt, and the first other verdict ends the sending. Attempts after that
/// one are never made.
pub open spec fn send(attempts: Seq<Attempt>) -> Sending
    decreases attempts.len(),
{
    if attempts.len() == 0 {
        Sending { waits: Seq::empty(), end: None }
    } else {
        match verdict(attempts[0]) {
            Verdict::Retry { delay_secs } => {
                let rest = send(attempts.drop_first());
                Sending { waits: seq![delay_secs] + rest.waits, end: rest.end }
            },
            last => Sending { waits: Seq::empty(), end: Some(last) },
        }
    }
}

/// `count` attempts that fail in the transport.
pub open spec fn transport_failures(count: nat) -> Seq<Attempt> {
    Seq::new(count, |i: int| Attempt::Failed(FailureKind::Transport))
}

/// `count` waits of the fixed delay.
pub open spec fn fixed_waits(count: nat) -> Seq<nat> {
    Seq::new(count, |i: int| RETRY_DELAY_SECS as nat)
}

/// Sending ends at the first attempt that is not a transient failure, with the
/// verdict on that attempt, after one wait of the fixed delay for each attempt
/// before it. Where every attempt is a transient failure it does not end.
pub proof fn send_ends_at_first_settled(attempts: Seq<Attempt>)
    ensures
        send(attempts).waits.len() <= attempts.len(),
        send(attempts).waits == fixed_waits(send(attempts).waits.len()),
        forall|i: int|
            0 <= i < send(attempts).waits.len() ==> #[trigger] attempts[i] == Attempt::Failed(
                FailureKind::Transport,
            ),
        send(attempts).end is None ==> send(attempts).waits.len() == attempts.len(),
        send(attempts).end matches Some(last) ==> {
            &&& send(attempts).waits.len() < attempts.len()
            &&& last == verdict(attempts[send(attempts).waits.len() as int])
            &&& !(last is Retry)
        },
    decreases attempts.len(),
{
    if attempts.len() > 0 {
        if verdict(attempts[0]) is Retry {
            let rest = attempts.drop_first();
            send_ends_at_first_settled(rest);
            let count = send(rest).waits.len();
            assert(seq![RETRY_DELAY_SECS as nat] + fixed_waits(count) =~= fixed_waits(count + 1));
            assert forall|i: int| 0 <= i < send(attempts).waits.len() implies #[trigger] attempts[i]
                == Attempt::Failed(FailureKind::Transport) by {
                if i > 0 {
                    assert(attempts[i] == rest[i - 1]);
                }
            }
            if send(rest).end is Some {
                assert(attempts[count as int + 1] == rest[count as int]);
            }
        } else {
            assert(send(attempts).waits =~= fixed_waits(0));
        }
    } else {
        assert(send(attempts).waits =~= fixed_waits(0));
    }
}

/// Failures of the transport are never shown: when the first `failures`
/// attempts fail in the transport and the next is answered, sending succeeds
/// with that answer, having waited the fixed delay once for each failure.
pub proof fn transport_failures_are_retried(
    failures: nat,
    entries: Map<Seq<char>, Seq<u8>>,
    rest: Seq<Attempt>,
)
    ensures
        send(transport_failures(failures) + seq![Attempt::Answered(entries)] + rest) == (Sending {
            waits: fixed_waits(failures),
            end: Some(
                Verdict::Done(Download::start(advertises_byte_ranges(accept_ranges_of(entries)))),
            ),
        }),
    decreases failures,
{
    let attempts = transport_failures(failures) + seq![Attempt::Answered(entries)] + rest;
    if failures == 0 {
        assert(attempts[0] == Attempt::Answered(entries));
        assert(fixed_waits(0) =~= Seq::<nat>::empty());
    } else {
        let fewer = (failures - 1) as nat;
        assert(attempts[0] == Attempt::Failed(FailureKind::Transport));
        assert(attempts.drop_first() =~= transport_failures(fewer) + seq![
            Attempt::Answered(entries),
        ] + rest);
        transport_failures_are_retried(fewer, entries, rest);
        assert(seq![RETRY_DELAY_SECS as nat] + fixed_waits(fewer) =~= fixed_waits(failures));
    }
}

/// A failure that is not transient is final: when the first attempt fails
/// because the request could not be built, because the redirect policy stopped
/// it or because of the status, sending fails at once, without a wait and
/// without a second attempt.
pub proof fn settled_failures_are_final(kind: FailureKind, rest: Seq<Attempt>)
    requires
        !kind.is_transient(),
    ensures
        send(seq![Attempt::Failed(kind)] + rest) == (Sending {
            waits: Seq::empty(),
            end: Some(Verdict::Fail),
        }),
{
    let attempts = seq![Attempt::Failed(kind)] + rest;
    assert(attempts[0] == Attempt::Failed(kind));
}


} // verus!
