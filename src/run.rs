//! A whole run: the tally of outcomes, and what holds of the index that a run
//! records.
use vstd::prelude::*;
use crate::catalog::{PageTarget, increasing, strictly_increasing, targets_view};
use crate::gallery::{GalleryIndex, entries_view};
use crate::gallery::{entry_of, ordered, recorded, render};
use crate::sync::{
    ActionModel, Event, PageOutcome, SyncError, PhaseModel, SyncConfig, delay_for, is_network,
    lemma_present_asset_skipped, trace,
};

verus! {

/// How many pages a run attempted, downloaded, skipped and failed.
#[derive(Debug, PartialEq, Eq)]
pub struct RunSummary {
    pub attempted: usize,
    pub downloaded: usize,
    pub skipped: usize,
    pub failed: usize,
}

impl RunSummary {
    pub fn new() -> (r: RunSummary)
        ensures
            r.attempted == 0 && r.downloaded == 0 && r.skipped == 0 && r.failed == 0,
    {
        RunSummary { attempted: 0, downloaded: 0, skipped: 0, failed: 0 }
    }

    /// Counts one page's outcome.
    pub fn tally(&mut self, outcome: PageOutcome)
        requires
            old(self).attempted < usize::MAX,
            old(self).downloaded + old(self).skipped + old(self).failed <= old(self).attempted,
        ensures
            final(self).attempted == old(self).attempted + 1,
            final(self).downloaded + final(self).skipped + final(self).failed <= final(self).attempted,
            final(self).downloaded == old(self).downloaded + if outcome is Downloaded { 1int } else { 0 },
            final(self).skipped == old(self).skipped + if outcome is Skipped { 1int } else { 0 },
            final(self).failed == old(self).failed + if outcome is Failed { 1int } else { 0 },
    {
        self.attempted = self.attempted + 1;
        match outcome {
            PageOutcome::Downloaded => {
                self.downloaded = self.downloaded + 1;
            },
            PageOutcome::Skipped => {
                self.skipped = self.skipped + 1;
            },
            PageOutcome::Failed(_) => {
                self.failed = self.failed + 1;
            },
        }
    }
}

/// Where no page failed, the run records every page's entry, in catalog order.
pub proof fn lemma_recorded_all(ts: Seq<(Seq<char>, (u64, Seq<char>))>, os: Seq<PageOutcome>)
    requires
        ts.len() == os.len(),
        forall|i: int| 0 <= i < os.len() ==> !(#[trigger] os[i] is Failed),
    ensures
        recorded(ts, os) == ts.map_values(|t: (Seq<char>, (u64, Seq<char>))| entry_of(t)),
    decreases os.len(),
{
    if os.len() > 0 {
        let (ts0, os0) = (ts.drop_last(), os.drop_last());
        assert forall|i: int| 0 <= i < os0.len() implies !(#[trigger] os0[i] is Failed) by {
            assert(os0[i] == os[i]);
        }
        lemma_recorded_all(ts0, os0);
        assert(!(os[os.len() - 1] is Failed));
        assert(recorded(ts, os) =~= ts.map_values(|t: (Seq<char>, (u64, Seq<char>))| entry_of(t)));
    } else {
        assert(recorded(ts, os) =~= ts.map_values(|t: (Seq<char>, (u64, Seq<char>))| entry_of(t)));
    }
}

/// Running the sync again over the same catalog, with every asset present,
/// asks for no fetch at all: each page is skipped at once. And the index is the
/// same, byte for byte, as that of a first run in which no page failed: a
/// skipped page is listed exactly as a downloaded one.
pub proof fn lemma_rerun_same_index(
    cfg: SyncConfig,
    ts: Seq<(Seq<char>, (u64, Seq<char>))>,
    urls: Seq<Seq<char>>,
    evs: Seq<Seq<Event>>,
    first: Seq<PageOutcome>,
)
    requires
        first.len() == ts.len(),
        urls.len() == ts.len(),
        evs.len() == ts.len(),
        forall|i: int| 0 <= i < evs.len() ==> (#[trigger] evs[i]).len() > 0 && evs[i][0] == Event::Exists(true),
        forall|i: int| 0 <= i < first.len() ==> !(#[trigger] first[i] is Failed),
    ensures
        forall|i: int, j: int|
            0 <= i < ts.len() && 0 <= j < evs[i].len() ==> !is_network(
                #[trigger] trace(cfg, urls[i], PhaseModel::AwaitExists, evs[i])[j],
            ),
        forall|i: int|
            0 <= i < ts.len() ==> #[trigger] trace(cfg, urls[i], PhaseModel::AwaitExists, evs[i])[0]
                == ActionModel::Finish(PageOutcome::Skipped),
        render(recorded(ts, first)) == render(
            recorded(ts, Seq::new(ts.len(), |i: int| PageOutcome::Skipped)),
        ),
{
    assert forall|i: int, j: int|
        0 <= i < ts.len() && 0 <= j < evs[i].len() implies !is_network(
        #[trigger] trace(cfg, urls[i], PhaseModel::AwaitExists, evs[i])[j],
    ) by {
        lemma_present_asset_skipped(cfg, urls[i], evs[i]);
    }
    assert forall|i: int| 0 <= i < ts.len() implies #[trigger] trace(
        cfg,
        urls[i],
        PhaseModel::AwaitExists,
        evs[i],
    )[0] == ActionModel::Finish(PageOutcome::Skipped) by {
        lemma_present_asset_skipped(cfg, urls[i], evs[i]);
    }
    let second = Seq::new(ts.len(), |i: int| PageOutcome::Skipped);
    lemma_recorded_all(ts, first);
    assert forall|i: int| 0 <= i < second.len() implies !(#[trigger] second[i] is Failed) by {
        assert(second[i] == PageOutcome::Skipped);
    }
    lemma_recorded_all(ts, second);
}

/// Resuming: where the assets of the first `k` pages exist and the others do
/// not, the first `k` pages ask for no fetch at all, every other page starts
/// with the fetch of its page document, and once those are downloaded the
/// index lists every page in catalog order.
pub proof fn lemma_resume(
    cfg: SyncConfig,
    ts: Seq<(Seq<char>, (u64, Seq<char>))>,
    urls: Seq<Seq<char>>,
    evs: Seq<Seq<Event>>,
    os: Seq<PageOutcome>,
    k: int,
)
    requires
        0 <= k <= ts.len(),
        urls.len() == ts.len(),
        evs.len() == ts.len(),
        os.len() == ts.len(),
        forall|i: int| 0 <= i < evs.len() ==> (#[trigger] evs[i]).len() > 0 && evs[i][0] == Event::Exists(i < k),
        forall|i: int| 0 <= i < k ==> #[trigger] os[i] == PageOutcome::Skipped,
        forall|i: int| k <= i < os.len() ==> #[trigger] os[i] == PageOutcome::Downloaded,
    ensures
        forall|i: int, j: int|
            0 <= i < k && 0 <= j < evs[i].len() ==> !is_network(
                #[trigger] trace(cfg, urls[i], PhaseModel::AwaitExists, evs[i])[j],
            ),
        forall|i: int|
            k <= i < ts.len() ==> #[trigger] trace(cfg, urls[i], PhaseModel::AwaitExists, evs[i])[0]
                == ActionModel::FetchPage(urls[i], delay_for(cfg.interval_ms, 1)),
        recorded(ts, os) == ts.map_values(|t: (Seq<char>, (u64, Seq<char>))| entry_of(t)),
{
    assert forall|i: int, j: int|
        0 <= i < k && 0 <= j < evs[i].len() implies !is_network(
        #[trigger] trace(cfg, urls[i], PhaseModel::AwaitExists, evs[i])[j],
    ) by {
        assert(evs[i][0] == Event::Exists(true));
        lemma_present_asset_skipped(cfg, urls[i], evs[i]);
    }
    assert forall|i: int| k <= i < ts.len() implies #[trigger] trace(
        cfg,
        urls[i],
        PhaseModel::AwaitExists,
        evs[i],
    )[0] == ActionModel::FetchPage(urls[i], delay_for(cfg.interval_ms, 1)) by {
        assert(evs[i][0] == Event::Exists(false));
    }
    assert forall|i: int| 0 <= i < os.len() implies !(#[trigger] os[i] is Failed) by {
        if i < k {
            assert(os[i] == PageOutcome::Skipped);
        } else {
            assert(os[i] == PageOutcome::Downloaded);
        }
    }
    lemma_recorded_all(ts, os);
}

/// Over pages whose numbers strictly increase, as a parsed catalog's do, the
/// recorded entries strictly increase too: recording a run never meets
/// `OutOfOrder`. No entry's number exceeds the last page's.
pub proof fn lemma_recorded_ordered(ts: Seq<(Seq<char>, (u64, Seq<char>))>, os: Seq<PageOutcome>)
    requires
        ts.len() == os.len(),
        increasing(ts),
    ensures
        ordered(recorded(ts, os)),
        forall|k: int|
            0 <= k < recorded(ts, os).len() ==> #[trigger] recorded(ts, os)[k].0 <= ts.last().1.0,
    decreases os.len(),
{
    if os.len() > 0 {
        let (ts0, os0) = (ts.drop_last(), os.drop_last());
        assert(increasing(ts0)) by {
            assert forall|k: int| 0 < k < ts0.len() implies #[trigger] ts0[k].1.0 > ts0[k - 1].1.0 by {
                assert(ts0[k] == ts[k] && ts0[k - 1] == ts[k - 1]);
            }
        }
        lemma_recorded_ordered(ts0, os0);
        let prev = recorded(ts0, os0);
        if ts0.len() > 0 {
            assert(ts.last().1.0 > ts0.last().1.0) by {
                assert(ts[ts.len() - 1].1.0 > ts[ts.len() - 2].1.0);
            }
        } else {
            assert(prev.len() == 0);
        }
    }
}

proof fn lemma_take_increasing(ts: Seq<(Seq<char>, (u64, Seq<char>))>, k: int)
    requires
        increasing(ts),
        0 <= k <= ts.len(),
    ensures
        increasing(ts.take(k)),
{
    assert forall|m: int| 0 < m < ts.take(k).len() implies #[trigger] ts.take(k)[m].1.0 > ts.take(k)[m
        - 1].1.0 by {
        assert(ts.take(k)[m] == ts[m] && ts.take(k)[m - 1] == ts[m - 1]);
    }
}

/// Settling page `k` lists it after the entries so far, whose numbers are all
/// below its own.
proof fn lemma_next_entry_in_order(
    ts: Seq<(Seq<char>, (u64, Seq<char>))>,
    os: Seq<PageOutcome>,
    k: int,
    o: PageOutcome,
)
    requires
        increasing(ts),
        0 <= k < ts.len(),
        os.len() == k,
    ensures
        recorded(ts.take(k), os).len() > 0 ==> recorded(ts.take(k), os).last().0 < ts[k].1.0,
        recorded(ts.take(k + 1), os.push(o)) == if o is Failed {
            recorded(ts.take(k), os)
        } else {
            recorded(ts.take(k), os).push(entry_of(ts[k]))
        },
{
    lemma_take_increasing(ts, k);
    lemma_recorded_ordered(ts.take(k), os);
    assert(ts.take(k + 1).drop_last() =~= ts.take(k));
    assert(os.push(o).drop_last() =~= os);
    assert(ts.take(k + 1).last() == ts[k]);
    if recorded(ts.take(k), os).len() > 0 {
        assert(k > 0);
        assert(ts.take(k).last() == ts[k - 1]);
        assert(ts[k].1.0 > ts[k - 1].1.0);
        let last = recorded(ts.take(k), os).len() - 1;
        assert(recorded(ts.take(k), os)[last].0 <= ts.take(k).last().1.0);
    }
}

/// The run over a catalog's pages, in order: which page comes next, and what
/// the settled pages gave. It stops after a fatal outcome.
pub struct Run {
    pub targets: Vec<PageTarget>,
    /// How many pages are settled.
    pub next: usize,
    pub index: GalleryIndex,
    pub summary: RunSummary,
    pub stopped: bool,
    /// The outcomes of the settled pages, in order.
    pub outcomes: Ghost<Seq<PageOutcome>>,
}

impl Run {
    pub open spec fn pages(&self) -> Seq<(Seq<char>, (u64, Seq<char>))> {
        targets_view(self.targets@)
    }

    pub open spec fn wf(&self) -> bool {
        &&& self.next <= self.targets@.len()
        &&& self.outcomes@.len() == self.next
        &&& increasing(self.pages())
        &&& self.index.wf()
        &&& !self.index.finalized
        &&& entries_view(self.index.entries@) == recorded(
            self.pages().take(self.next as int),
            self.outcomes@,
        )
        &&& self.summary.attempted == self.next
        &&& self.summary.downloaded + self.summary.skipped + self.summary.failed <= self.summary.attempted
        &&& self.stopped == (self.next > 0 && self.outcomes@.last() == PageOutcome::Failed(
            SyncError::PersistFailed,
        ))
    }

    /// Whether every page is settled or the run stopped.
    pub open spec fn done(&self) -> bool {
        self.stopped || self.next == self.targets@.len()
    }

    /// A run over the pages, or `None` where their numbers do not strictly
    /// increase.
    pub fn new(targets: Vec<PageTarget>) -> (r: Option<Run>)
        ensures
            r is Some <==> increasing(targets_view(targets@)),
            r matches Some(run) ==> run.wf() && run.targets@ == targets@ && run.next == 0,
    {
        if !strictly_increasing(&targets) {
            return None;
        }
        let ghost none: Seq<PageOutcome> = Seq::empty();
        let run = Run {
            targets,
            next: 0,
            index: GalleryIndex::new(),
            summary: RunSummary::new(),
            stopped: false,
            outcomes: Ghost(none),
        };
        assert(entries_view(run.index.entries@) =~= seq![]);
        Some(run)
    }

    /// The page to sync next; `None` once the run is done.
    pub fn current(&self) -> (r: Option<&PageTarget>)
        requires
            self.wf(),
        ensures
            r is None <==> self.done(),
            r matches Some(t) ==> *t == self.targets@[self.next as int],
    {
        if self.stopped || self.next == self.targets.len() {
            None
        } else {
            Some(&self.targets[self.next])
        }
    }

    /// Settles the current page with its outcome: counts it, lists it in the
    /// index unless it failed, and stops the run where it is fatal.
    pub fn settle(&mut self, outcome: PageOutcome)
        requires
            old(self).wf(),
            !old(self).done(),
        ensures
            final(self).wf(),
            final(self).targets@ == old(self).targets@,
            final(self).next == old(self).next + 1,
            final(self).outcomes@ == old(self).outcomes@.push(outcome),
            final(self).stopped == (outcome == PageOutcome::Failed(SyncError::PersistFailed)),
    {
        let ghost ts = self.pages();
        let ghost k = self.next as int;
        proof {
            lemma_next_entry_in_order(ts, self.outcomes@, k, outcome);
            assert(self.targets@[k]@ == ts[k]);
            if self.index.entries@.len() > 0 {
                let es = entries_view(self.index.entries@);
                assert(es.last().0 == self.index.entries@.last().page_number);
            }
        }
        let n = self.targets.len();
        assert(self.next < n);
        let r = self.index.record(&self.targets[self.next], outcome);
        assert(r is Ok);
        self.summary.tally(outcome);
        self.stopped = outcome.is_fatal();
        self.outcomes = Ghost(self.outcomes@.push(outcome));
        self.next = self.next + 1;
    }

    /// Finalizes the index over the settled pages and gives its document.
    pub fn finish(self) -> (r: String)
        requires
            self.wf(),
        ensures
            r@ == render(recorded(self.pages().take(self.next as int), self.outcomes@)),
    {
        let mut index = self.index;
        match index.finalize() {
            Ok(doc) => doc,
            Err(_) => String::new(),
        }
    }
}

} // verus!
