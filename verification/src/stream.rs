//! The resumable body stream: what to do with each thing that the live stream of
//! a download yields.
//!
//! The caller polls the body stream of the current response and reports what it
//! gave to [`Decoder::poll_next`]. When told to resume, it waits, sends the
//! request again with the headers it was given, and reports how that went to
//! [`Decoder::resumed`]. The decoder keeps the offset and decides.

use crate::chunk::{chunk_bytes, chunk_len};
use crate::download::{step, Action, Download, Event, Phase, RETRY_DELAY_SECS};
use crate::header::{accept_ranges_of, header_entries};
use crate::range_header::resume_headers;
use crate::ranges::{accepts_byte_ranges, advertises_byte_ranges};
use bytes::Bytes;
use reqwest::header::HeaderMap;
use reqwest::Error;
use vstd::prelude::*;

verus! {

/// What is kept of the first response of a download: whether the server
/// supports byte ranges, and the offset, which is 0.
#[derive(Debug)]
pub struct Response {
    accept_byte_ranges: bool,
    pos: u64,
}

/// The state of a resumable body stream.
#[derive(Debug)]
pub struct Decoder {
    accept_byte_ranges: bool,
    pos: u64,
    phase: Phase,
}

/// What the caller is to do next.
#[derive(Debug)]
pub enum Next {
    /// Hand this chunk to the consumer.
    Yield(Bytes),
    /// Tell the consumer that the body has ended.
    Finish,
    /// Hand this failure to the consumer; the stream is over.
    Fail(Error),
    /// Wait for `delay_secs` seconds, send the request again with `headers`
    /// added, and report the outcome to [`Decoder::resumed`].
    Resume { delay_secs: u64, headers: HeaderMap },
    /// Poll the live body stream.
    Poll,
}

impl View for Response {
    type V = Download;

    closed spec fn view(&self) -> Download {
        Download {
            accept_byte_ranges: self.accept_byte_ranges,
            pos: self.pos as nat,
            phase: Phase::Streaming,
        }
    }
}

impl View for Decoder {
    type V = Download;

    closed spec fn view(&self) -> Download {
        Download {
            accept_byte_ranges: self.accept_byte_ranges,
            pos: self.pos as nat,
            phase: self.phase,
        }
    }
}

impl View for Next {
    type V = Action;

    open spec fn view(&self) -> Action {
        match *self {
            Next::Yield(chunk) => Action::Yield(chunk_bytes(chunk)),
            Next::Finish => Action::Finish,
            Next::Fail(_) => Action::Fail,
            Next::Resume { delay_secs, headers } => Action::Resume {
                delay_secs: delay_secs as nat,
                headers: header_entries(headers),
            },
            Next::Poll => Action::Poll,
        }
    }
}

/// The event that an item of the live body stream stands for.
pub open spec fn polled(item: Option<Result<Bytes, Error>>) -> Event {
    match item {
        Some(Ok(chunk)) => Event::Chunk(chunk_bytes(chunk)),
        Some(Err(_)) => Event::Failed,
        None => Event::End,
    }
}

/// Whether a download in this state can take `item` from its body stream: it
/// streams, and where `item` is a chunk, the offset can move by its length
/// without leaving what 64 bits hold.
pub open spec fn takes(state: Download, item: Option<Result<Bytes, Error>>) -> bool {
    &&& state.phase is Streaming
    &&& item matches Some(Ok(chunk)) ==> state.pos + chunk_bytes(chunk).len() <= u64::MAX
}

/// The event that the outcome of the request for the rest stands for.
pub open spec fn reissued(outcome: Result<(), Error>) -> Event {
    match outcome {
        Ok(_) => Event::Resumed,
        Err(_) => Event::Refused,
    }
}

impl Response {
    /// What to keep of a response with these headers: range support as the
    /// `Accept-Ranges` header advertises it, and offset 0.
    pub fn new(headers: &HeaderMap) -> (response: Response)
        ensures
            response@ == Download::start(
                advertises_byte_ranges(accept_ranges_of(header_entries(*headers))),
            ),
    {
        Response { accept_byte_ranges: accepts_byte_ranges(headers), pos: 0 }
    }

    /// Whether the server advertised support for byte ranges.
    pub fn accept_byte_ranges(&self) -> (accepts: bool)
        ensures
            accepts == self@.accept_byte_ranges,
    {
        self.accept_byte_ranges
    }

    /// The number of bytes handed to the consumer so far.
    pub fn position(&self) -> (pos: u64)
        ensures
            pos == self@.pos,
    {
        self.pos
    }

    /// The state of the body stream of this response: it streams, from the
    /// offset of the response and with its range support.
    pub fn bytes_stream(self) -> (decoder: Decoder)
        ensures
            decoder@ == self@,
    {
        Decoder {
            accept_byte_ranges: self.accept_byte_ranges,
            pos: self.pos,
            phase: Phase::Streaming,
        }
    }
}

impl Decoder {
    /// Whether the server advertised support for byte ranges.
    pub fn accept_byte_ranges(&self) -> (accepts: bool)
        ensures
            accepts == self@.accept_byte_ranges,
    {
        self.accept_byte_ranges
    }

    /// The number of bytes handed to the consumer so far.
    pub fn position(&self) -> (pos: u64)
        ensures
            pos == self@.pos,
    {
        self.pos
    }

    /// Where the download stands.
    pub fn phase(&self) -> (phase: Phase)
        ensures
            phase == self@.phase,
    {
        self.phase
    }

    /// Whether the offset can move by the length of `chunk` without leaving
    /// what 64 bits hold.
    pub fn has_room(&self, chunk: &Bytes) -> (room: bool)
        ensures
            room == (self@.pos + chunk_bytes(*chunk).len() <= u64::MAX),
    {
        let len = chunk_len(chunk);
        len as u64 <= u64::MAX - self.pos
    }

    /// Takes what the live body stream yielded and says what to do next.
    ///
    /// A chunk is handed on as it is and moves the offset by its length. The end
    /// of the body ends the download. A failure ends it too when the server does
    /// not support byte ranges, and is then handed on as it is. With range
    /// support the failure is dropped and the answer is to resume: to wait and
    /// to ask again for everything from the offset on.
    pub fn poll_next(&mut self, item: Option<Result<Bytes, Error>>) -> (next: Next)
        requires
            takes(old(self)@, item),
        ensures
            step(old(self)@, polled(item)) == Some((final(self)@, next@)),
            item matches Some(Ok(chunk)) ==> next == Next::Yield(chunk),
            item matches Some(Err(err)) ==> !old(self)@.accept_byte_ranges ==> next == Next::Fail(
                err,
            ),
    {
        match item {
            Some(Ok(chunk)) => {
                let len = chunk_len(&chunk);
                self.pos = self.pos + len as u64;
                Next::Yield(chunk)
            },
            Some(Err(err)) => {
                if !self.accept_byte_ranges {
                    self.phase = Phase::Finished;
                    Next::Fail(err)
                } else {
                    self.phase = Phase::Resuming;
                    Next::Resume {
                        delay_secs: RETRY_DELAY_SECS,
                        headers: resume_headers(self.pos),
                    }
                }
            },
            None => {
                self.phase = Phase::Finished;
                Next::Finish
            },
        }
    }

    /// As [`Decoder::poll_next`] where the download can take `item`. Where it
    /// cannot, because it does not stream or because the offset has no room for
    /// the chunk, nothing changes and `item` is handed back.
    pub fn try_poll_next(&mut self, item: Option<Result<Bytes, Error>>) -> (taken: Result<
        Next,
        Option<Result<Bytes, Error>>,
    >)
        ensures
            match taken {
                Ok(next) => {
                    &&& takes(old(self)@, item)
                    &&& step(old(self)@, polled(item)) == Some((final(self)@, next@))
                    &&& item matches Some(Ok(chunk)) ==> next == Next::Yield(chunk)
                    &&& item matches Some(Err(err)) ==> !old(self)@.accept_byte_ranges ==> next
                        == Next::Fail(err)
                },
                Err(back) => !takes(old(self)@, item) && back == item && final(self)@ == old(
                    self,
                )@,
            },
    {
        let room = match &item {
            Some(Ok(chunk)) => self.has_room(chunk),
            _ => true,
        };
        if self.phase == Phase::Streaming && room {
            Ok(self.poll_next(item))
        } else {
            Err(item)
        }
    }

    /// Takes the outcome of the request for the rest and says what to do next.
    ///
    /// When the request was answered, the body of the answer is the live stream
    /// and is polled from now on; the offset stays. When it failed, the failure
    /// ends the download and is handed on as it is: the request is not sent a
    /// second time.
    pub fn resumed(&mut self, outcome: Result<(), Error>) -> (next: Next)
        requires
            old(self)@.phase is Resuming,
        ensures
            step(old(self)@, reissued(outcome)) == Some((final(self)@, next@)),
            outcome matches Err(err) ==> next == Next::Fail(err),
    {
        match outcome {
            Ok(_) => {
                self.phase = Phase::Streaming;
                Next::Poll
            },
            Err(err) => {
                self.phase = Phase::Finished;
                Next::Fail(err)
            },
        }
    }

    /// As [`Decoder::resumed`] where a request for the rest is under way. Where
    /// none is, nothing changes and `outcome` is handed back.
    pub fn try_resumed(&mut self, outcome: Result<(), Error>) -> (taken: Result<
        Next,
        Result<(), Error>,
    >)
        ensures
            match taken {
                Ok(next) => {
                    &&& old(self)@.phase is Resuming
                    &&& step(old(self)@, reissued(outcome)) == Some((final(self)@, next@))
                    &&& outcome matches Err(err) ==> next == Next::Fail(err)
                },
                Err(back) => !(old(self)@.phase is Resuming) && back == outcome && final(self)@
                    == old(self)@,
            },
    {
        if self.phase == Phase::Resuming {
            Ok(self.resumed(outcome))
        } else {
            Err(outcome)
        }
    }
}

} // verus!
