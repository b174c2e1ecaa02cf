//! Resumable download of the node binary, in ranges of bytes.
//!
//! The download is a conversation with the server: the library decides, at
//! each answer, what to ask or do next (`Transfer::step`); the caller does
//! the asking and reports the answers.

use crate::text::{decimal, decimal_string};
use vstd::prelude::*;

verus! {

/// The most bytes asked for at once.
pub const CHUNK_SIZE: u32 = 409599;

/// The value of a `Range` header that asks for the bytes `first` to `last`, both included.
pub open spec fn range_header(first: nat, last: nat) -> Seq<char> {
    "bytes="@ + decimal(first) + "-"@ + decimal(last)
}

/// The ranges that cover the bytes `start` to `end`, both included, in
/// order, each of at most `size` bytes.
pub open spec fn chunk_ranges(start: int, end: int, size: int) -> Seq<(int, int)>
    decreases end - start + 1,
{
    if size <= 0 || start > end {
        Seq::empty()
    } else {
        let last = if start + size - 1 < end { start + size - 1 } else { end };
        seq![(start, last)] + chunk_ranges(last + 1, end, size)
    }
}

/// The ranges of bytes still to ask for: from `start` to `end`, both
/// included, at most `buffer_size` at a time.
#[derive(Clone, Copy, Debug, PartialEq, Eq, Structural)]
pub struct PartialRangeIter {
    pub start: u64,
    pub end: u64,
    pub buffer_size: u32,
}

impl PartialRangeIter {
    /// How many bytes the next range holds.
    pub open spec fn chunk(self) -> int {
        if (self.buffer_size as int) < self.end - self.start + 1 {
            self.buffer_size as int
        } else {
            self.end - self.start + 1
        }
    }

    /// The ranges still to ask for.
    pub open spec fn ranges(self) -> Seq<(int, int)> {
        chunk_ranges(self.start as int, self.end as int, self.buffer_size as int)
    }

    /// Whether the next range can be computed within 64 bits: the count of
    /// bytes left, and the start after the next range, are 64-bit numbers,
    /// and the next range ends at a byte that exists.
    pub open spec fn fits(self) -> bool {
        self.start > self.end || {
            &&& self.end - self.start + 1 <= u64::MAX
            &&& self.start + self.chunk() <= u64::MAX
            &&& self.start + self.chunk() >= 1
        }
    }

    /// The last byte is below the largest 64-bit number, and ranges are not
    /// empty: every range until the last fits.
    pub open spec fn bounded(self) -> bool {
        self.end < u64::MAX && self.buffer_size > 0
    }

    /// The ranges from `start` to `end`, `buffer_size` bytes at a time.
    pub fn new(start: u64, end: u64, buffer_size: u32) -> (r: PartialRangeIter)
        requires
            buffer_size > 0,
        ensures
            r.start == start,
            r.end == end,
            r.buffer_size == buffer_size,
    {
        PartialRangeIter { start, end, buffer_size }
    }

    /// The `Range` header value of the next range, or `None` when all bytes
    /// have been asked for.
    pub fn next(&mut self) -> (r: Option<String>)
        requires
            old(self).fits(),
        ensures
            final(self).end == old(self).end,
            final(self).buffer_size == old(self).buffer_size,
            old(self).start > old(self).end ==> r is None && final(self).start == old(self).start,
            old(self).start <= old(self).end ==> {
                &&& final(self).start == old(self).start + old(self).chunk()
                &&& r matches Some(h) && h@ == range_header(
                    old(self).start as nat,
                    (final(self).start - 1) as nat,
                )
            },
            old(self).buffer_size > 0 ==> old(self).ranges() == match r {
                Some(_) => seq![(old(self).start as int, final(self).start - 1)] + final(self).ranges(),
                None => Seq::<(int, int)>::empty(),
            },
            old(self).bounded() ==> final(self).fits(),
    {
        if self.start > self.end {
            None
        } else {
            let first = self.start;
            let left = self.end - self.start + 1;
            let size = self.buffer_size as u64;
            let step = if size < left { size } else { left };
            self.start = self.start + step;
            let mut header = "bytes=".to_owned();
            let from = decimal_string(first);
            header.append(from.as_str());
            header.append("-");
            let to = decimal_string(self.start - 1);
            header.append(to.as_str());
            Some(header)
        }
    }
}

/// The ranges cover the bytes from `start` to `end` once each, in order:
/// the first begins at `start`, each begins after the one before, the last
/// ends at `end`, and none is empty or holds more than `size` bytes.
pub proof fn lemma_chunk_ranges_cover(start: int, end: int, size: int)
    requires
        size > 0,
        start <= end + 1,
    ensures
        ({
            let r = chunk_ranges(start, end, size);
            &&& (r.len() == 0 <==> start > end)
            &&& r.len() > 0 ==> r[0].0 == start && r.last().1 == end
            &&& forall|i: int| 0 <= i < r.len() ==> r[i].0 <= r[i].1 && r[i].1 - r[i].0 < size
            &&& forall|i: int| 0 <= i < r.len() - 1 ==> #[trigger] r[i + 1].0 == r[i].1 + 1
        }),
    decreases end - start + 1,
{
    if start <= end {
        let last = if start + size - 1 < end { start + size - 1 } else { end };
        lemma_chunk_ranges_cover(last + 1, end, size);
        let rest = chunk_ranges(last + 1, end, size);
        let r = chunk_ranges(start, end, size);
        assert(r == seq![(start, last)] + rest);
        assert forall|i: int| 0 <= i < r.len() - 1 implies #[trigger] r[i + 1].0 == r[i].1 + 1 by {
            if i > 0 {
                assert(r[i] == rest[i - 1]);
                assert(r[i + 1] == rest[i]);
                assert(rest[(i - 1) + 1].0 == rest[i - 1].1 + 1);
            } else {
                assert(r[1] == rest[0]);
            }
        }
        assert forall|i: int| 0 <= i < r.len() implies r[i].0 <= r[i].1 && r[i].1 - r[i].0 < size by {
            if i > 0 {
                assert(r[i] == rest[i - 1]);
            }
        }
        if rest.len() > 0 {
            assert(r.last() == rest.last());
        }
    }
}

/// The smaller of two numbers.
pub open spec fn min_int(a: int, b: int) -> int {
    if a < b {
        a
    } else {
        b
    }
}

/// There are `ceil((end - start + 1) / size)` ranges, and range `i` runs from
/// byte `start + i * size` to the smaller of `start + (i + 1) * size - 1` and
/// `end`.
pub proof fn lemma_chunk_ranges_shape(start: int, end: int, size: int)
    requires
        size > 0,
        start <= end + 1,
    ensures
        chunk_ranges(start, end, size).len() == (end - start + size) / size,
        forall|i: int|
            0 <= i < chunk_ranges(start, end, size).len() ==> #[trigger] chunk_ranges(
                start,
                end,
                size,
            )[i] == (start + i * size, min_int(start + (i + 1) * size, end + 1) - 1),
    decreases end - start + 1,
{
    let r = chunk_ranges(start, end, size);
    let n = end - start + size;
    if start > end {
        assert(n / size == 0) by (nonlinear_arith)
            requires
                0 <= n < size,
        ;
    } else {
        let last = if start + size - 1 < end { start + size - 1 } else { end };
        lemma_chunk_ranges_shape(last + 1, end, size);
        let rest = chunk_ranges(last + 1, end, size);
        assert(r == seq![(start, last)] + rest);
        if start + size - 1 < end {
            let x = end - start;
            assert((x + size) / size == x / size + 1) by (nonlinear_arith)
                requires
                    x >= 0,
                    size > 0,
            ;
            assert(rest.len() == x / size);
        } else {
            assert(n / size == 1) by (nonlinear_arith)
                requires
                    size <= n < 2 * size,
            ;
            assert((end - (last + 1) + size) / size == 0) by (nonlinear_arith)
                requires
                    end - (last + 1) + size == size - 1,
                    size > 0,
            ;
        }
        assert forall|i: int| 0 <= i < r.len() implies #[trigger] r[i] == (
            start + i * size,
            min_int(start + (i + 1) * size, end + 1) - 1,
        ) by {
            if i == 0 {
                assert(r[0] == (start, last));
                assert((0 + 1) * size == size) by (nonlinear_arith);
                assert(0 * size == 0) by (nonlinear_arith);
            } else {
                assert(r[i] == rest[i - 1]);
                assert(last + 1 == start + size);
                assert(start + size + (i - 1) * size == start + i * size) by (nonlinear_arith);
                assert(start + size + ((i - 1) + 1) * size == start + (i + 1) * size)
                    by (nonlinear_arith);
            }
        }
    }
}

/// Whether a reply's status lets the download go on: `200 OK` or `206 Partial Content`.
pub open spec fn status_accepted(status: u16) -> bool {
    status == 200 || status == 206
}

/// Whether a reply's status lets the download go on.
pub fn accepted_status(status: u16) -> (r: bool)
    ensures
        r == status_accepted(status),
{
    status == 200 || status == 206
}

/// Only `200 OK` and `206 Partial Content` let a download go on: a reply to
/// a range request with any other status ends the download with the error
/// `error_status_code`, and a reply with one of these two has its body
/// copied, the ranges unchanged.
pub proof fn lemma_range_reply(it: PartialRangeIter, status: u16, next: Transfer, action: TransferAction)
    requires
        Transfer::Requesting(it).answers(TransferEvent::GetReplied { status }, next, action),
    ensures
        status_accepted(status) <==> (status == 200 || status == 206),
        (status == 200 || status == 206) ==> (next == Transfer::Copying(it)
            && action matches TransferAction::CopyBody),
        !(status == 200 || status == 206) ==> (next == Transfer::Finished
            && (action matches TransferAction::Finish(Err(m)) && m@ == "error_status_code"@)),
{
}

/// Where a download stands.
#[derive(Clone, Copy, Debug, PartialEq, Eq, Structural)]
pub enum Transfer {
    /// The size of the file has been asked for.
    Probing,
    /// A range has been asked for; these are the ranges after it.
    Requesting(PartialRangeIter),
    /// The body of a reply is being copied to the file; these are the ranges after it.
    Copying(PartialRangeIter),
    /// The download is over.
    Finished,
}

/// What the caller reports.
#[derive(Clone, Debug)]
pub enum TransferEvent {
    /// The request for the size failed, with this message.
    HeadFailed(String),
    /// The reply to the request for the size: its `Content-Length`, if it
    /// had one, and the length of the file so far.
    HeadReplied { content_length: Option<u64>, file_len: u64 },
    /// The request for a range failed, with this message.
    GetFailed(String),
    /// The reply to the request for a range came with this status.
    GetReplied { status: u16 },
    /// Copying the body failed, with this message.
    CopyFailed(String),
    /// The body has been copied.
    Copied,
}

/// What the caller is to do next.
#[derive(Debug)]
pub enum TransferAction {
    /// Ask for the size of the file (a `HEAD` request).
    SendHead,
    /// Ask for a range (a `GET` request with this `Range` header).
    SendGet(String),
    /// Copy the body of the reply to the end of the file.
    CopyBody,
    /// Stop, with this outcome.
    Finish(Result<(), String>),
}

/// The message of a reply without `Content-Length`.
pub const NO_CONTENT_LENGTH: &'static str = "No Content Length";

/// The message of a reply with a status that ends the download.
pub const BAD_STATUS: &'static str = "error_status_code";

/// Whether `action` ends the download with the error `message`.
pub open spec fn fails_with(action: TransferAction, message: Seq<char>) -> bool {
    action matches TransferAction::Finish(Err(m)) && m@ == message
}

/// The state and action after the ranges `it` are taken up: the next range
/// is asked for, or, when none is left, the download ends well.
pub open spec fn moves_on(it: PartialRangeIter, next: Transfer, action: TransferAction) -> bool {
    if it.start > it.end {
        next == Transfer::Finished && action matches TransferAction::Finish(Ok(()))
    } else {
        let rest = PartialRangeIter { start: (it.start + it.chunk()) as u64, ..it };
        &&& next == Transfer::Requesting(rest)
        &&& action matches TransferAction::SendGet(h)
        &&& h@ == range_header(it.start as nat, (rest.start - 1) as nat)
    }
}

impl Transfer {
    /// The ranges of a state end below the largest 64-bit number, and are not empty.
    pub open spec fn sound(self) -> bool {
        match self {
            Transfer::Requesting(it) => it.bounded(),
            Transfer::Copying(it) => it.bounded(),
            _ => true,
        }
    }

    /// Whether the state awaits this kind of report, with a size that is
    /// not zero.
    pub open spec fn awaits(self, event: TransferEvent) -> bool {
        match (self, event) {
            (Transfer::Probing, TransferEvent::HeadFailed(_)) => true,
            (Transfer::Probing, TransferEvent::HeadReplied { content_length, .. }) => (
            content_length matches Some(n) ==> n > 0),
            (Transfer::Requesting(_), TransferEvent::GetFailed(_)) => true,
            (Transfer::Requesting(_), TransferEvent::GetReplied { .. }) => true,
            (Transfer::Copying(_), TransferEvent::CopyFailed(_)) => true,
            (Transfer::Copying(_), TransferEvent::Copied) => true,
            _ => false,
        }
    }

    /// How a download of `CHUNK_SIZE`-byte ranges answers each report.
    pub open spec fn answers(self, event: TransferEvent, next: Transfer, action: TransferAction) -> bool {
        match (self, event) {
            (Transfer::Probing, TransferEvent::HeadFailed(e)) => next == Transfer::Finished
                && fails_with(action, e@),
            (Transfer::Probing, TransferEvent::HeadReplied { content_length, file_len }) => match content_length {
                None => next == Transfer::Finished && fails_with(action, NO_CONTENT_LENGTH@),
                Some(n) => moves_on(
                    PartialRangeIter { start: file_len, end: (n - 1) as u64, buffer_size: CHUNK_SIZE },
                    next,
                    action,
                ),
            },
            (Transfer::Requesting(it), TransferEvent::GetFailed(e)) => next == Transfer::Finished
                && fails_with(action, e@),
            (Transfer::Requesting(it), TransferEvent::GetReplied { status }) => if status_accepted(
                status,
            ) {
                next == Transfer::Copying(it) && action matches TransferAction::CopyBody
            } else {
                next == Transfer::Finished && fails_with(action, BAD_STATUS@)
            },
            (Transfer::Copying(it), TransferEvent::CopyFailed(e)) => next == Transfer::Finished
                && fails_with(action, e@),
            (Transfer::Copying(it), TransferEvent::Copied) => moves_on(it, next, action),
            _ => false,
        }
    }

    /// A download begins by asking for the size of the file.
    pub fn begin() -> (r: (Transfer, TransferAction))
        ensures
            r.0 == Transfer::Probing,
            r.1 matches TransferAction::SendHead,
    {
        (Transfer::Probing, TransferAction::SendHead)
    }

    /// Whether the state awaits this kind of report, with a size that is not zero.
    pub fn awaiting(&self, event: &TransferEvent) -> (r: bool)
        ensures
            r == self.awaits(*event),
    {
        match (self, event) {
            (Transfer::Probing, TransferEvent::HeadFailed(_)) => true,
            (Transfer::Probing, TransferEvent::HeadReplied { content_length, .. }) => match content_length {
                Some(n) => *n > 0,
                None => true,
            },
            (Transfer::Requesting(_), TransferEvent::GetFailed(_)) => true,
            (Transfer::Requesting(_), TransferEvent::GetReplied { .. }) => true,
            (Transfer::Copying(_), TransferEvent::CopyFailed(_)) => true,
            (Transfer::Copying(_), TransferEvent::Copied) => true,
            _ => false,
        }
    }

    fn take_up(mut it: PartialRangeIter) -> (r: (Transfer, TransferAction))
        requires
            it.bounded(),
        ensures
            moves_on(it, r.0, r.1),
            r.0.sound(),
    {
        match it.next() {
            None => (Transfer::Finished, TransferAction::Finish(Ok(()))),
            Some(h) => (Transfer::Requesting(it), TransferAction::SendGet(h)),
        }
    }

    /// The state after `event`, and what the caller is to do next.
    pub fn step(self, event: TransferEvent) -> (r: (Transfer, TransferAction))
        requires
            self.sound(),
            self.awaits(event),
        ensures
            self.answers(event, r.0, r.1),
            r.0.sound(),
    {
        match (self, event) {
            (Transfer::Probing, TransferEvent::HeadReplied { content_length, file_len }) => {
                match content_length {
                    None => (
                        Transfer::Finished,
                        TransferAction::Finish(Err(NO_CONTENT_LENGTH.to_owned())),
                    ),
                    Some(n) => Transfer::take_up(PartialRangeIter::new(file_len, n - 1, CHUNK_SIZE)),
                }
            },
            (Transfer::Requesting(it), TransferEvent::GetReplied { status }) => {
                if accepted_status(status) {
                    (Transfer::Copying(it), TransferAction::CopyBody)
                } else {
                    (Transfer::Finished, TransferAction::Finish(Err(BAD_STATUS.to_owned())))
                }
            },
            (Transfer::Copying(it), TransferEvent::Copied) => Transfer::take_up(it),
            (_, TransferEvent::HeadFailed(e)) => (Transfer::Finished, TransferAction::Finish(Err(e))),
            (_, TransferEvent::GetFailed(e)) => (Transfer::Finished, TransferAction::Finish(Err(e))),
            (_, TransferEvent::CopyFailed(e)) => (Transfer::Finished, TransferAction::Finish(Err(e))),
            (s, _) => (s, TransferAction::Finish(Ok(()))),
        }
    }
}

} // verus!
