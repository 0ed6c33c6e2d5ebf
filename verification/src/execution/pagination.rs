//! `SKIP`/`LIMIT` over a stream of chunks: which rows of each chunk stay visible.
use vstd::prelude::*;

use crate::bits::{bits, Bits, MAX_BITS};

verus! {

/// What to do with the chunk just read.
pub enum PageAction {
    /// Emit the chunk with this visibility (at least one row visible).
    Emit(Bits),
    /// Drop the chunk and read the next one.
    Skip,
    /// The limit is reached: stop reading the input.
    Stop,
}

/// Walks the rows of a stream, counting the rows skipped and the rows still allowed.
pub struct PaginationState {
    offset: usize,
    skipped: usize,
    remaining: Option<usize>,
    /// rows of the input consumed so far
    seen: Ghost<nat>,
    /// the limit, `None` for no limit
    limit: Ghost<Option<nat>>,
}

/// `len` flags, true exactly on the positions `first..last`.
fn window_visibility(len: usize, first: usize, last: usize) -> (r: Bits)
    requires
        len <= MAX_BITS,
    ensures
        bits(r).len() == len,
        forall|j: int| 0 <= j < len ==> #[trigger] bits(r)[j] == (first <= j < last),
{
    let mut vis = Bits::new();
    let mut i: usize = 0;
    while i < len
        invariant
            i <= len,
            len <= MAX_BITS,
            bits(vis).len() == i,
            forall|j: int| 0 <= j < i ==> #[trigger] bits(vis)[j] == (first <= j < last),
        decreases len - i,
    {
        vis.push(first <= i && i < last);
        i = i + 1;
    }
    vis
}

/// The chunk of `chunk_len` rows after `before` is emitted with visibility `vis`: a row is visible
/// exactly when it belongs to the page, and some row is.
pub open spec fn emitted_rows(before: PaginationState, after: PaginationState, chunk_len: usize, vis: Seq<bool>) -> bool {
    &&& after.wf()
    &&& after.seen() == before.seen() + chunk_len
    &&& vis.len() == chunk_len
    &&& forall|i: int| 0 <= i < chunk_len ==> #[trigger] vis[i] == before.in_page(before.seen() + i)
    &&& exists|i: int| 0 <= i < chunk_len && #[trigger] vis[i]
}

/// The chunk of `chunk_len` rows after `before` holds no row of the page.
pub open spec fn skipped_rows(before: PaginationState, after: PaginationState, chunk_len: usize) -> bool {
    &&& after.wf()
    &&& after.seen() == before.seen() + chunk_len
    &&& forall|i: int| 0 <= i < chunk_len ==> !#[trigger] before.in_page(before.seen() + i)
}

impl PaginationState {
    pub closed spec fn offset(&self) -> nat {
        self.offset as nat
    }

    pub closed spec fn limit(&self) -> Option<nat> {
        self.limit@
    }

    pub closed spec fn seen(&self) -> nat {
        self.seen@
    }

    /// Whether the row at position `p` of the input stream belongs to the page.
    pub open spec fn in_page(&self, p: int) -> bool {
        &&& self.offset() <= p
        &&& match self.limit() {
            Some(l) => p < self.offset() + l,
            None => true,
        }
    }

    pub closed spec fn wf(&self) -> bool {
        &&& self.skipped == if self.seen@ < self.offset { self.seen@ } else { self.offset as nat }
        &&& match (self.remaining, self.limit@) {
            (None, None) => true,
            (Some(rem), Some(l)) => {
                let passed: int = if self.seen@ <= self.offset { 0 } else { self.seen@ - self.offset };
                let emitted: int = if passed < l { passed } else { l as int };
                rem == l - emitted
            },
            _ => false,
        }
    }

    /// A fresh state for `SKIP offset LIMIT limit`; `limit == u64::MAX` means no limit.
    pub fn new(offset: usize, limit: u64) -> (r: PaginationState)
        requires
            limit < u64::MAX ==> limit <= usize::MAX,
        ensures
            r.wf(),
            r.seen() == 0,
            r.offset() == offset,
            r.limit() == if limit == u64::MAX { None } else { Some(limit as nat) },
    {
        let remaining = if limit == u64::MAX { None } else { Some(limit as usize) };
        PaginationState {
            offset,
            skipped: 0,
            remaining,
            seen: Ghost(0),
            limit: Ghost(if limit == u64::MAX { None } else { Some(limit as nat) }),
        }
    }

    /// Whether reading the next chunk of `chunk_len` rows stops the stream: the chunk has rows,
    /// they are not all before the offset, and the limit is used up.
    pub open spec fn stops_at(&self, chunk_len: nat) -> bool {
        &&& chunk_len > 0
        &&& self.seen() + chunk_len > self.offset()
        &&& self.limit() matches Some(l) && (l == 0 || self.offset() + l <= self.seen())
    }

    /// Decides on the next chunk of `chunk_len` rows, all visible.
    pub fn next_chunk(&mut self, chunk_len: usize) -> (r: PageAction)
        requires
            old(self).wf(),
            old(self).seen() + chunk_len <= usize::MAX,
            chunk_len <= MAX_BITS,
        ensures
            final(self).offset() == old(self).offset(),
            final(self).limit() == old(self).limit(),
            r is Emit ==> emitted_rows(*old(self), *final(self), chunk_len, bits(r->Emit_0)),
            r is Skip ==> skipped_rows(*old(self), *final(self), chunk_len),
            r is Stop ==> forall|p: int| p >= old(self).seen() ==> !#[trigger] old(self).in_page(p),
            r is Stop <==> old(self).stops_at(chunk_len as nat),
    {
        if chunk_len == 0 {
            return PageAction::Skip;
        }
        let ghost seen0 = self.seen@;
        let mut first_visible: usize = 0;
        if self.skipped < self.offset {
            let to_skip = self.offset - self.skipped;
            if to_skip >= chunk_len {
                self.skipped = self.skipped + chunk_len;
                self.seen = Ghost((seen0 + chunk_len) as nat);
                return PageAction::Skip;
            }
            self.skipped = self.skipped + to_skip;
            first_visible = to_skip;
        }
        // rows first_visible..chunk_len are past the offset
        let mut last_visible: usize = chunk_len;
        match self.remaining {
            Some(rem) => {
                if rem == 0 {
                    return PageAction::Stop;
                }
                let visible = chunk_len - first_visible;
                if visible > rem {
                    last_visible = first_visible + rem;
                    self.remaining = Some(0);
                } else {
                    self.remaining = Some(rem - visible);
                }
            },
            None => {},
        }
        self.seen = Ghost((seen0 + chunk_len) as nat);
        let vis = window_visibility(chunk_len, first_visible, last_visible);
        proof {
            let o = self.offset as int;
            assert(first_visible == (if seen0 < o { o - seen0 } else { 0int }));
            match old(self).limit@ {
                Some(l) => {
                    assert(last_visible == (if o + l - seen0 < chunk_len { o + l - seen0 } else { chunk_len as int }));
                },
                None => {
                    assert(last_visible == chunk_len);
                },
            }
            assert forall|j: int| 0 <= j < chunk_len implies #[trigger] bits(vis)[j] == old(self).in_page(
                old(self).seen() + j,
            ) by {
                assert(bits(vis)[j] == (first_visible <= j < last_visible));
            }
        }
        assert(bits(vis)[first_visible as int]);
        PageAction::Emit(vis)
    }
}

} // verus!
