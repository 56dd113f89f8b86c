//! The decisions of syncing one page, as a state machine.
//!
//! The caller performs each `Action` (a check on disk, a fetch after the given
//! delay, a write) and answers with the `Event` it observed. The asset is
//! written to a temporary path and only `RenameIntoPlace` puts it at its
//! deterministic path, so a failed write never leaves a file there.
use vstd::prelude::*;
use crate::document::Document;
use crate::paths::url_of;
use crate::resolve::{PageError, PageShape, asset_source, resolve_page};

verus! {

#[derive(PartialEq, Eq, Debug, Clone, Copy, Structural)]
pub enum SyncError {
    PageFetchFailed,
    MalformedPage,
    MissingAsset,
    AssetFetchFailed,
    /// A local write or rename failed: fatal to the run.
    PersistFailed,
}

#[derive(PartialEq, Eq, Debug, Clone, Copy, Structural)]
pub enum PageOutcome {
    Downloaded,
    Skipped,
    Failed(SyncError),
}

impl PageOutcome {
    /// Whether the run cannot go on after this outcome.
    pub fn is_fatal(&self) -> (r: bool)
        ensures
            r == (*self == PageOutcome::Failed(SyncError::PersistFailed)),
    {
        match self {
            PageOutcome::Failed(SyncError::PersistFailed) => true,
            _ => false,
        }
    }
}

/// The settings that every page's sync shares.
#[derive(Debug, PartialEq, Eq)]
pub struct SyncConfig {
    /// Origin of the site, without a trailing `/`.
    pub base_url: String,
    pub page_shape: PageShape,
    /// Minimum wait before each remote fetch, in milliseconds.
    pub interval_ms: u64,
    /// How many times a fetch is tried before the page is given up.
    pub max_tries: u32,
}

/// Where one page's sync stands.
#[derive(Debug, PartialEq, Eq)]
pub enum Phase {
    AwaitExists,
    AwaitPage { tries: u32 },
    AwaitAsset { url: String, tries: u32 },
    AwaitWrite,
    AwaitRename,
    AwaitDiscard,
    Done(PageOutcome),
}

/// What the caller is to do next.
#[derive(Debug, PartialEq, Eq)]
pub enum Action {
    /// Check whether the asset's deterministic path exists.
    CheckExists,
    /// Wait `delay_ms`, then fetch the page document.
    FetchPage { url: String, delay_ms: u64 },
    /// Wait `delay_ms`, then fetch the asset's bytes.
    FetchAsset { url: String, delay_ms: u64 },
    /// Write the fetched bytes to the temporary path.
    WriteTemp,
    /// Rename the temporary file to the asset's deterministic path.
    RenameIntoPlace,
    /// Remove the temporary file.
    DiscardTemp,
    /// The page is settled.
    Finish(PageOutcome),
    /// The event answered nothing that was asked; nothing changed.
    Ignore,
}

/// What the caller observed.
#[derive(Debug, PartialEq, Eq)]
pub enum Event {
    Exists(bool),
    /// The page document, or `None` on a transport error or a failure status.
    PageFetched(Option<Document>),
    /// Whether the asset's bytes arrived in full with a success status.
    AssetFetched(bool),
    TempWritten(bool),
    Renamed(bool),
    TempDiscarded,
}

pub enum PhaseModel {
    AwaitExists,
    AwaitPage(u32),
    AwaitAsset(Seq<char>, u32),
    AwaitWrite,
    AwaitRename,
    AwaitDiscard,
    Done(PageOutcome),
}

pub enum ActionModel {
    CheckExists,
    FetchPage(Seq<char>, u64),
    FetchAsset(Seq<char>, u64),
    WriteTemp,
    RenameIntoPlace,
    DiscardTemp,
    Finish(PageOutcome),
    Ignore,
}

impl View for Phase {
    type V = PhaseModel;

    open spec fn view(&self) -> PhaseModel {
        match self {
            Phase::AwaitExists => PhaseModel::AwaitExists,
            Phase::AwaitPage { tries } => PhaseModel::AwaitPage(*tries),
            Phase::AwaitAsset { url, tries } => PhaseModel::AwaitAsset(url@, *tries),
            Phase::AwaitWrite => PhaseModel::AwaitWrite,
            Phase::AwaitRename => PhaseModel::AwaitRename,
            Phase::AwaitDiscard => PhaseModel::AwaitDiscard,
            Phase::Done(o) => PhaseModel::Done(*o),
        }
    }
}

impl View for Action {
    type V = ActionModel;

    open spec fn view(&self) -> ActionModel {
        match self {
            Action::CheckExists => ActionModel::CheckExists,
            Action::FetchPage { url, delay_ms } => ActionModel::FetchPage(url@, *delay_ms),
            Action::FetchAsset { url, delay_ms } => ActionModel::FetchAsset(url@, *delay_ms),
            Action::WriteTemp => ActionModel::WriteTemp,
            Action::RenameIntoPlace => ActionModel::RenameIntoPlace,
            Action::DiscardTemp => ActionModel::DiscardTemp,
            Action::Finish(o) => ActionModel::Finish(*o),
            Action::Ignore => ActionModel::Ignore,
        }
    }
}

/// The wait before the `tries`-th attempt of a fetch: the interval times the
/// attempt's number, capped at `u64::MAX`.
pub open spec fn delay_for(interval_ms: u64, tries: u32) -> u64 {
    if interval_ms * tries <= u64::MAX {
        (interval_ms * tries) as u64
    } else {
        u64::MAX
    }
}

pub open spec fn error_of(e: PageError) -> SyncError {
    match e {
        PageError::PageFetchFailed => SyncError::PageFetchFailed,
        PageError::MalformedPage => SyncError::MalformedPage,
        PageError::MissingAsset => SyncError::MissingAsset,
    }
}

pub open spec fn finish(o: PageOutcome) -> (PhaseModel, ActionModel) {
    (PhaseModel::Done(o), ActionModel::Finish(o))
}

/// One transition: the next phase and the action asked for.
pub open spec fn next(cfg: SyncConfig, page_url: Seq<char>, ph: PhaseModel, ev: Event) -> (
    PhaseModel,
    ActionModel,
) {
    match (ph, ev) {
        (PhaseModel::AwaitExists, Event::Exists(present)) => if present {
            finish(PageOutcome::Skipped)
        } else {
            (PhaseModel::AwaitPage(1), ActionModel::FetchPage(page_url, delay_for(cfg.interval_ms, 1)))
        },
        (PhaseModel::AwaitPage(t), Event::PageFetched(got)) => match got {
            None => if t < cfg.max_tries {
                (
                    PhaseModel::AwaitPage((t + 1) as u32),
                    ActionModel::FetchPage(page_url, delay_for(cfg.interval_ms, (t + 1) as u32)),
                )
            } else {
                finish(PageOutcome::Failed(SyncError::PageFetchFailed))
            },
            Some(doc) => match asset_source(doc, cfg.page_shape) {
                Err(e) => finish(PageOutcome::Failed(error_of(e))),
                Ok(s) => (
                    PhaseModel::AwaitAsset(url_of(cfg.base_url@, s), 1),
                    ActionModel::FetchAsset(url_of(cfg.base_url@, s), delay_for(cfg.interval_ms, 1)),
                ),
            },
        },
        (PhaseModel::AwaitAsset(u, t), Event::AssetFetched(ok)) => if ok {
            (PhaseModel::AwaitWrite, ActionModel::WriteTemp)
        } else if t < cfg.max_tries {
            (
                PhaseModel::AwaitAsset(u, (t + 1) as u32),
                ActionModel::FetchAsset(u, delay_for(cfg.interval_ms, (t + 1) as u32)),
            )
        } else {
            finish(PageOutcome::Failed(SyncError::AssetFetchFailed))
        },
        (PhaseModel::AwaitWrite, Event::TempWritten(ok)) => if ok {
            (PhaseModel::AwaitRename, ActionModel::RenameIntoPlace)
        } else {
            (PhaseModel::AwaitDiscard, ActionModel::DiscardTemp)
        },
        (PhaseModel::AwaitRename, Event::Renamed(ok)) => if ok {
            finish(PageOutcome::Downloaded)
        } else {
            (PhaseModel::AwaitDiscard, ActionModel::DiscardTemp)
        },
        (PhaseModel::AwaitDiscard, Event::TempDiscarded) => finish(
            PageOutcome::Failed(SyncError::PersistFailed),
        ),
        _ => (ph, ActionModel::Ignore),
    }
}

/// The actions asked for, one per event, from phase `ph` on.
pub open spec fn trace(cfg: SyncConfig, page_url: Seq<char>, ph: PhaseModel, evs: Seq<Event>) -> Seq<
    ActionModel,
>
    decreases evs.len(),
{
    if evs.len() == 0 {
        seq![]
    } else {
        let (p, a) = next(cfg, page_url, ph, evs[0]);
        seq![a] + trace(cfg, page_url, p, evs.drop_first())
    }
}

pub open spec fn is_network(a: ActionModel) -> bool {
    a is FetchPage || a is FetchAsset
}

/// The sync of one page.
#[derive(Debug, PartialEq, Eq)]
pub struct PageSync {
    pub page_url: String,
    pub phase: Phase,
}

fn delay(interval_ms: u64, tries: u32) -> (r: u64)
    ensures
        r == delay_for(interval_ms, tries),
{
    match interval_ms.checked_mul(tries as u64) {
        Some(d) => d,
        None => u64::MAX,
    }
}

fn page_error(e: PageError) -> (r: SyncError)
    ensures
        r == error_of(e),
{
    match e {
        PageError::PageFetchFailed => SyncError::PageFetchFailed,
        PageError::MalformedPage => SyncError::MalformedPage,
        PageError::MissingAsset => SyncError::MissingAsset,
    }
}

impl PageSync {
    /// Starts the sync of the page at `page_url`; the first action is always
    /// the check on disk, before any network access.
    pub fn begin(page_url: String) -> (r: (PageSync, Action))
        ensures
            r.0.page_url@ == page_url@,
            r.0.phase@ == PhaseModel::AwaitExists,
            r.1@ == ActionModel::CheckExists,
    {
        (PageSync { page_url, phase: Phase::AwaitExists }, Action::CheckExists)
    }

    /// Takes in what the caller observed and says what to do next.
    pub fn step(&mut self, cfg: &SyncConfig, ev: Event) -> (a: Action)
        ensures
            final(self).page_url@ == old(self).page_url@,
            (final(self).phase@, a@) == next(*cfg, old(self).page_url@, old(self).phase@, ev),
    {
        let r = match &self.phase {
            Phase::AwaitExists => after_exists(&self.page_url, cfg, ev),
            Phase::AwaitPage { tries } => after_page(&self.page_url, cfg, *tries, ev),
            Phase::AwaitAsset { url, tries } => after_asset(url, cfg, *tries, ev),
            Phase::AwaitWrite => after_write(ev),
            Phase::AwaitRename => after_rename(ev),
            Phase::AwaitDiscard => after_discard(ev),
            Phase::Done(_) => None,
        };
        match r {
            Some((p, a)) => {
                self.phase = p;
                a
            },
            None => Action::Ignore,
        }
    }
}

/// The transition's result where it moves: `None` where it ignores the event.
pub open spec fn moved(r: Option<(Phase, Action)>, t: (PhaseModel, ActionModel), ph: PhaseModel) -> bool {
    match r {
        Some((p, a)) => t == (p@, a@),
        None => t == (ph, ActionModel::Ignore),
    }
}

fn finished(o: PageOutcome) -> (r: Option<(Phase, Action)>)
    ensures
        r matches Some((p, a)) && (p@, a@) == finish(o),
{
    Some((Phase::Done(o), Action::Finish(o)))
}

fn after_exists(page_url: &String, cfg: &SyncConfig, ev: Event) -> (r: Option<(Phase, Action)>)
    ensures
        moved(r, next(*cfg, page_url@, PhaseModel::AwaitExists, ev), PhaseModel::AwaitExists),
{
    match ev {
        Event::Exists(present) => if present {
            finished(PageOutcome::Skipped)
        } else {
            Some(
                (
                    Phase::AwaitPage { tries: 1 },
                    Action::FetchPage { url: page_url.clone(), delay_ms: delay(cfg.interval_ms, 1) },
                ),
            )
        },
        _ => None,
    }
}

fn after_page(page_url: &String, cfg: &SyncConfig, tries: u32, ev: Event) -> (r: Option<
    (Phase, Action),
>)
    ensures
        moved(r, next(*cfg, page_url@, PhaseModel::AwaitPage(tries), ev), PhaseModel::AwaitPage(tries)),
{
    match ev {
        Event::PageFetched(got) => match got {
            None => if tries < cfg.max_tries {
                let t = tries + 1;
                Some(
                    (
                        Phase::AwaitPage { tries: t },
                        Action::FetchPage { url: page_url.clone(), delay_ms: delay(cfg.interval_ms, t) },
                    ),
                )
            } else {
                finished(PageOutcome::Failed(SyncError::PageFetchFailed))
            },
            Some(doc) => match resolve_page(&doc, &cfg.page_shape, cfg.base_url.as_str()) {
                Err(e) => finished(PageOutcome::Failed(page_error(e))),
                Ok(asset) => {
                    let url = asset.source_url;
                    Some(
                        (
                            Phase::AwaitAsset { url: url.clone(), tries: 1 },
                            Action::FetchAsset { url, delay_ms: delay(cfg.interval_ms, 1) },
                        ),
                    )
                },
            },
        },
        _ => None,
    }
}

fn after_asset(url: &String, cfg: &SyncConfig, tries: u32, ev: Event) -> (r: Option<(Phase, Action)>)
    ensures
        forall|page_url: Seq<char>|
            moved(
                r,
                #[trigger] next(*cfg, page_url, PhaseModel::AwaitAsset(url@, tries), ev),
                PhaseModel::AwaitAsset(url@, tries),
            ),
{
    match ev {
        Event::AssetFetched(ok) => if ok {
            Some((Phase::AwaitWrite, Action::WriteTemp))
        } else if tries < cfg.max_tries {
            let t = tries + 1;
            Some(
                (
                    Phase::AwaitAsset { url: url.clone(), tries: t },
                    Action::FetchAsset { url: url.clone(), delay_ms: delay(cfg.interval_ms, t) },
                ),
            )
        } else {
            finished(PageOutcome::Failed(SyncError::AssetFetchFailed))
        },
        _ => None,
    }
}

fn after_write(ev: Event) -> (r: Option<(Phase, Action)>)
    ensures
        forall|cfg: SyncConfig, u: Seq<char>|
            moved(r, #[trigger] next(cfg, u, PhaseModel::AwaitWrite, ev), PhaseModel::AwaitWrite),
{
    match ev {
        Event::TempWritten(ok) => if ok {
            Some((Phase::AwaitRename, Action::RenameIntoPlace))
        } else {
            Some((Phase::AwaitDiscard, Action::DiscardTemp))
        },
        _ => None,
    }
}

fn after_rename(ev: Event) -> (r: Option<(Phase, Action)>)
    ensures
        forall|cfg: SyncConfig, u: Seq<char>|
            moved(r, #[trigger] next(cfg, u, PhaseModel::AwaitRename, ev), PhaseModel::AwaitRename),
{
    match ev {
        Event::Renamed(ok) => if ok {
            finished(PageOutcome::Downloaded)
        } else {
            Some((Phase::AwaitDiscard, Action::DiscardTemp))
        },
        _ => None,
    }
}

fn after_discard(ev: Event) -> (r: Option<(Phase, Action)>)
    ensures
        forall|cfg: SyncConfig, u: Seq<char>|
            moved(r, #[trigger] next(cfg, u, PhaseModel::AwaitDiscard, ev), PhaseModel::AwaitDiscard),
{
    match ev {
        Event::TempDiscarded => finished(PageOutcome::Failed(SyncError::PersistFailed)),
        _ => None,
    }
}

proof fn lemma_trace_len(cfg: SyncConfig, u: Seq<char>, ph: PhaseModel, evs: Seq<Event>)
    ensures
        trace(cfg, u, ph, evs).len() == evs.len(),
    decreases evs.len(),
{
    if evs.len() > 0 {
        lemma_trace_len(cfg, u, next(cfg, u, ph, evs[0]).0, evs.drop_first());
    }
}

/// A settled page ignores every further event.
pub proof fn lemma_settled_ignores(cfg: SyncConfig, u: Seq<char>, o: PageOutcome, evs: Seq<Event>)
    ensures
        forall|i: int|
            0 <= i < evs.len() ==> #[trigger] trace(cfg, u, PhaseModel::Done(o), evs)[i]
                == ActionModel::Ignore,
    decreases evs.len(),
{
    lemma_trace_len(cfg, u, PhaseModel::Done(o), evs);
    if evs.len() > 0 {
        lemma_settled_ignores(cfg, u, o, evs.drop_first());
        let t = trace(cfg, u, PhaseModel::Done(o), evs);
        assert forall|i: int| 0 <= i < evs.len() implies #[trigger] t[i] == ActionModel::Ignore by {
            if i > 0 {
                assert(t[i] == trace(cfg, u, PhaseModel::Done(o), evs.drop_first())[i - 1]);
            }
        }
    }
}

/// Where the asset's path already exists, the page is skipped at once and no
/// fetch of the page or of the asset is ever asked for, whatever follows.
pub proof fn lemma_present_asset_skipped(cfg: SyncConfig, u: Seq<char>, evs: Seq<Event>)
    requires
        evs.len() > 0,
        evs[0] == Event::Exists(true),
    ensures
        trace(cfg, u, PhaseModel::AwaitExists, evs)[0] == ActionModel::Finish(PageOutcome::Skipped),
        forall|i: int|
            0 <= i < evs.len() ==> !is_network(#[trigger] trace(cfg, u, PhaseModel::AwaitExists, evs)[i]),
{
    let rest = evs.drop_first();
    let t = trace(cfg, u, PhaseModel::AwaitExists, evs);
    lemma_settled_ignores(cfg, u, PageOutcome::Skipped, rest);
    lemma_trace_len(cfg, u, PhaseModel::Done(PageOutcome::Skipped), rest);
    assert forall|i: int| 0 <= i < evs.len() implies !is_network(#[trigger] t[i]) by {
        if i > 0 {
            assert(t[i] == trace(cfg, u, PhaseModel::Done(PageOutcome::Skipped), rest)[i - 1]);
        }
    }
}

/// The asset is renamed into place only in answer to a temporary write that
/// succeeded in full.
pub proof fn lemma_rename_follows_full_write(cfg: SyncConfig, u: Seq<char>, ph: PhaseModel, evs: Seq<Event>)
    ensures
        forall|i: int|
            0 <= i < evs.len() && #[trigger] trace(cfg, u, ph, evs)[i] == ActionModel::RenameIntoPlace
                ==> evs[i] == Event::TempWritten(true),
    decreases evs.len(),
{
    if evs.len() > 0 {
        let p = next(cfg, u, ph, evs[0]).0;
        let rest = evs.drop_first();
        lemma_rename_follows_full_write(cfg, u, p, rest);
        lemma_trace_len(cfg, u, p, rest);
        let t = trace(cfg, u, ph, evs);
        assert forall|i: int|
            0 <= i < evs.len() && #[trigger] t[i] == ActionModel::RenameIntoPlace implies evs[i]
                == Event::TempWritten(true) by {
            if i > 0 {
                assert(t[i] == trace(cfg, u, p, rest)[i - 1]);
                assert(evs[i] == rest[i - 1]);
            }
        }
    }
}

proof fn lemma_discarding_never_renames(cfg: SyncConfig, u: Seq<char>, ph: PhaseModel, evs: Seq<Event>)
    requires
        ph == PhaseModel::AwaitDiscard || ph is Done,
    ensures
        forall|i: int|
            0 <= i < evs.len() ==> #[trigger] trace(cfg, u, ph, evs)[i] != ActionModel::RenameIntoPlace,
    decreases evs.len(),
{
    if evs.len() > 0 {
        let p = next(cfg, u, ph, evs[0]).0;
        let rest = evs.drop_first();
        lemma_discarding_never_renames(cfg, u, p, rest);
        lemma_trace_len(cfg, u, p, rest);
        let t = trace(cfg, u, ph, evs);
        assert forall|i: int| 0 <= i < evs.len() implies #[trigger] t[i] != ActionModel::RenameIntoPlace by {
            if i > 0 {
                assert(t[i] == trace(cfg, u, p, rest)[i - 1]);
            }
        }
    }
}

/// A temporary write that fails is discarded, and the asset is never renamed
/// into place afterwards: no file, partial or empty, appears at its path.
/// Once the discard is done the page fails with `PersistFailed`.
pub proof fn lemma_failed_write_leaves_no_asset(cfg: SyncConfig, u: Seq<char>, evs: Seq<Event>)
    requires
        evs.len() > 0,
        evs[0] == Event::TempWritten(false),
    ensures
        trace(cfg, u, PhaseModel::AwaitWrite, evs)[0] == ActionModel::DiscardTemp,
        forall|i: int|
            0 <= i < evs.len() ==> #[trigger] trace(cfg, u, PhaseModel::AwaitWrite, evs)[i]
                != ActionModel::RenameIntoPlace,
        next(cfg, u, PhaseModel::AwaitDiscard, Event::TempDiscarded) == finish(
            PageOutcome::Failed(SyncError::PersistFailed),
        ),
{
    let rest = evs.drop_first();
    let t = trace(cfg, u, PhaseModel::AwaitWrite, evs);
    lemma_discarding_never_renames(cfg, u, PhaseModel::AwaitDiscard, rest);
    lemma_trace_len(cfg, u, PhaseModel::AwaitDiscard, rest);
    assert forall|i: int| 0 <= i < evs.len() implies #[trigger] t[i] != ActionModel::RenameIntoPlace by {
        if i > 0 {
            assert(t[i] == trace(cfg, u, PhaseModel::AwaitDiscard, rest)[i - 1]);
        }
    }
}

} // verus!
