//! The pagination aggregator: drains a queue of continuations under a
//! caller-supplied page budget and merges the playlist records of every
//! fetched page.
//!
//! The aggregation is *draining* while the queue is non-empty and budget
//! remains, and *done* otherwise. A caller repeatedly takes the next
//! pending page with [`LibraryFetch::next_page`], fetches it, parses it
//! through the browse step, and hands the outcome back to
//! [`LibraryFetch::absorb_page`]; any error on the way aborts the whole
//! aggregation, and nothing partial is kept.

use vstd::prelude::*;

use crate::extract::PlaylistRule;
use crate::extract::from_json;
use crate::extract::walk;
use crate::json::JsonValue;
use crate::types::Continuation;
use crate::types::PlaylistView;
use crate::types::YoutubeMusicPlaylistRef;

verus! {

/// The aggregation state: the pending pages, the budget that remains,
/// and the records merged so far.
#[derive(Debug)]
pub struct LibraryFetch {
    pub queue: Vec<Continuation>,
    pub remaining: usize,
    pub library: Vec<YoutubeMusicPlaylistRef>,
}

impl LibraryFetch {
    /// Done: nothing pending, or no budget left.
    pub open spec fn spec_done(self) -> bool {
        self.queue@.len() == 0 || self.remaining == 0
    }

    /// Starts the aggregation from the parsed first page: its playlist
    /// records seed the accumulator, its continuations seed the queue.
    pub fn start(first_page: &JsonValue, continuations: Vec<Continuation>, budget: usize) -> (r:
        Self)
        ensures
            r.library.deep_view() == walk(PlaylistRule, *first_page),
            r.queue == continuations,
            r.remaining == budget,
    {
        LibraryFetch {
            queue: continuations,
            remaining: budget,
            library: from_json(first_page, PlaylistRule),
        }
    }

    /// Takes the next pending page, most recently discovered first, and
    /// spends one unit of budget on it. The second component says
    /// whether that page should itself be asked for further
    /// continuations: only while at least one more page of budget
    /// remains after this one — the last permitted page must not request
    /// more. Returns nothing exactly when the aggregation is done.
    pub fn next_page(&mut self) -> (r: Option<(Continuation, bool)>)
        ensures
            match r {
                None => {
                    &&& old(self).spec_done()
                    &&& final(self).queue@ == old(self).queue@
                    &&& final(self).remaining == old(self).remaining
                    &&& final(self).library == old(self).library
                },
                Some(p) => {
                    &&& !old(self).spec_done()
                    &&& p.0 == old(self).queue@.last()
                    &&& final(self).queue@ == old(self).queue@.drop_last()
                    &&& final(self).remaining == old(self).remaining - 1
                    &&& final(self).library == old(self).library
                    &&& p.1 == (old(self).remaining >= 2)
                },
            },
    {
        if self.remaining == 0 {
            return None;
        }
        match self.queue.pop() {
            None => None,
            Some(c) => {
                self.remaining = self.remaining - 1;
                let more = self.remaining >= 1;
                Some((c, more))
            },
        }
    }

    /// Merges one fetched page: its playlist records extend the
    /// accumulator in request order, and its fresh continuations go on
    /// top of the queue, to be drained first.
    pub fn absorb_page(&mut self, page: &JsonValue, new_continuations: Vec<Continuation>)
        ensures
            final(self).library.deep_view() == old(self).library.deep_view() + walk(
                PlaylistRule,
                *page,
            ),
            final(self).queue@ == old(self).queue@ + new_continuations@,
            final(self).remaining == old(self).remaining,
    {
        let ghost lib0 = self.library.deep_view();
        let mut new_records = from_json(page, PlaylistRule);
        let ghost recs = new_records.deep_view();
        self.library.append(&mut new_records);
        assert(self.library.deep_view() =~= lib0 + recs);
        let mut conts = new_continuations;
        self.queue.append(&mut conts);
    }

    /// Whether the aggregation has ended.
    pub fn is_done(&self) -> (r: bool)
        ensures
            r == self.spec_done(),
    {
        self.queue.len() == 0 || self.remaining == 0
    }

    /// The merged records of all fetched pages.
    pub fn finish(self) -> (r: Vec<YoutubeMusicPlaylistRef>)
        ensures
            r == self.library,
    {
        self.library
    }
}

} // verus!

verus! {

/// One page of a synthetic response chain: how many fresh continuations
/// it returns and which playlist records it carries.
pub struct PageScript {
    pub fresh: nat,
    pub records: Seq<PlaylistView>,
}

/// The abstract drain of a whole aggregation: from `queue_len` pending
/// pages and `remaining` budget, one page is drawn per step — mirroring
/// one [`LibraryFetch::next_page`] followed by one
/// [`LibraryFetch::absorb_page`] — until the queue or the budget is
/// exhausted. Yields how many pages were drawn and the records they
/// carried, in request order.
pub open spec fn drain(queue_len: nat, remaining: nat, script: Seq<PageScript>) -> (
    nat,
    Seq<PlaylistView>,
)
    decreases remaining,
{
    if queue_len == 0 || remaining == 0 || script.len() == 0 {
        (0, Seq::empty())
    } else {
        let step = drain(
            ((queue_len - 1) + script[0].fresh) as nat,
            (remaining - 1) as nat,
            script.drop_first(),
        );
        (1 + step.0, script[0].records + step.1)
    }
}

/// Pagination termination: whatever the chain answers — even a fresh
/// continuation on every page — the aggregation draws at most its page
/// budget of continuation pages, and a budget of zero draws none.
pub proof fn lemma_drain_bounded(queue_len: nat, remaining: nat, script: Seq<PageScript>)
    ensures
        drain(queue_len, remaining, script).0 <= remaining,
        drain(queue_len, remaining, script).0 <= script.len(),
    decreases remaining,
{
    if queue_len == 0 || remaining == 0 || script.len() == 0 {
    } else {
        lemma_drain_bounded(
            ((queue_len - 1) + script[0].fresh) as nat,
            (remaining - 1) as nat,
            script.drop_first(),
        );
    }
}

/// What the drain leaves behind: the pending-page count and budget
/// after the last page is drawn.
pub open spec fn drain_state(queue_len: nat, remaining: nat, script: Seq<PageScript>) -> (
    nat,
    nat,
)
    decreases remaining,
{
    if queue_len == 0 || remaining == 0 || script.len() == 0 {
        (queue_len, remaining)
    } else {
        drain_state(
            ((queue_len - 1) + script[0].fresh) as nat,
            (remaining - 1) as nat,
            script.drop_first(),
        )
    }
}

/// Pagination always ends in the done state — no pages pending or no
/// budget left — as long as the chain answers at least as many pages as
/// the budget permits.
pub proof fn lemma_drain_reaches_done(queue_len: nat, remaining: nat, script: Seq<PageScript>)
    requires
        script.len() >= remaining,
    ensures
        ({
            let f = drain_state(queue_len, remaining, script);
            f.0 == 0 || f.1 == 0
        }),
    decreases remaining,
{
    if queue_len == 0 || remaining == 0 || script.len() == 0 {
    } else {
        lemma_drain_reaches_done(
            ((queue_len - 1) + script[0].fresh) as nat,
            (remaining - 1) as nat,
            script.drop_first(),
        );
    }
}

/// Aggregation order: the records of a drain are exactly the drawn
/// pages' records, concatenated in the order the pages were requested.
pub proof fn lemma_drain_merges_in_request_order(
    queue_len: nat,
    remaining: nat,
    script: Seq<PageScript>,
)
    ensures
        ({
            let r = drain(queue_len, remaining, script);
            r.1 == script.take(r.0 as int).map_values(|p: PageScript| p.records).flatten()
        }),
    decreases remaining,
{
    let r = drain(queue_len, remaining, script);
    if queue_len == 0 || remaining == 0 || script.len() == 0 {
        assert(script.take(0).map_values(|p: PageScript| p.records) =~= Seq::<
            Seq<PlaylistView>,
        >::empty());
    } else {
        let q2 = ((queue_len - 1) + script[0].fresh) as nat;
        let b2 = (remaining - 1) as nat;
        let step = drain(q2, b2, script.drop_first());
        lemma_drain_bounded(q2, b2, script.drop_first());
        lemma_drain_merges_in_request_order(q2, b2, script.drop_first());
        let taken = script.take(r.0 as int).map_values(|p: PageScript| p.records);
        assert(taken[0] == script[0].records);
        assert(taken.drop_first() =~= script.drop_first().take(step.0 as int).map_values(
            |p: PageScript| p.records,
        ));
        assert(taken.flatten() == taken.first() + taken.drop_first().flatten());
        assert(r.1 == taken.flatten());
    }
}

} // verus!
