//! Resumable HTTP downloads, without the I/O: the decisions that turn a body
//! stream which may fail into one that resumes with a `Range` request.
//!
//! The caller owns the HTTP client, the timers and the streams. It reports what
//! happened (a response arrived, a chunk arrived, the stream failed) and is told
//! what to do next (hand the chunk on, wait and ask again from an offset, give
//! up). Every decision is a verified function with an exact contract.
//!
//! - [`request`]: the first request, which is sent again for as long as the
//!   transport fails.
//! - [`stream`]: the body stream, which resumes from its offset when it breaks.
//! - [`download`]: the model that both are stated over, and what is proved of
//!   whole downloads.
//! - [`ranges`]: whether a server advertises support for byte ranges.
//! - [`range_header`]: the `Range` header of a resumed request.
//! - [`failure`]: the kinds of failure that the retry policy tells apart.
//! - [`header`], [`chunk`]: the types of the HTTP client that pass through, and
//!   what is assumed of them.

pub mod chunk;
pub mod download;
pub mod failure;
pub mod header;
pub mod range_header;
pub mod ranges;
pub mod request;
pub mod stream;
