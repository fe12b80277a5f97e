//! One run over the packages of a lockfile: which of them are fetched, what
//! is done for each, and how the run ends.
//!
//! The library performs no request and writes no file. For each package it
//! says what to do next, given what has happened so far; the caller does it
//! and reports back. Packages may be worked on side by side and may finish in
//! any order: the results are kept by the order in which the packages were
//! submitted.

use crate::cache::{cache_path_text, CargoCacheCrate, CargoCacheCrateView, CrateDownloadTarget};
use crate::downloader::checksum::checksum_verifies;
use crate::downloader::{
    checked_download, download_step, persisted, DownloadError, DownloadStep, DownloadStepView,
};
use crate::http::{outcome_view, HttpResponse, HttpResponseView};
use crate::source_resolver::{
    dl_url_step, link_step, RemoteRegistrySourceResolver, ResolutionError, ResolveEvent,
    ResolveEventView, ResolveStep, ResolveStepView, ResolverView,
};
use vstd::prelude::*;

verus! {

/// Why a package was not fetched.
#[derive(Debug, Clone, Copy, PartialEq, Eq, Structural)]
pub enum FetchError {
    /// No link could be made for it.
    Resolution(ResolutionError),
    /// Its download gave no archive.
    Download(DownloadError),
}

/// What has happened in the fetching of one package.
#[derive(Debug, Clone, PartialEq, Eq)]
pub enum FetchEvent {
    /// Nothing yet.
    Start,
    /// The request for the registry's configuration document ended.
    Config(Option<HttpResponse>),
    /// The request that followed a redirection ended.
    Redirected(Option<HttpResponse>),
    /// The request for the archive ended.
    Downloaded(Option<HttpResponse>),
    /// The archive was handed over for writing; `true` where it was written.
    Persisted(bool),
}

/// A fetch event, as plain values.
pub enum FetchEventView {
    Start,
    Config(Option<HttpResponseView>),
    Redirected(Option<HttpResponseView>),
    Downloaded(Option<HttpResponseView>),
    Persisted(bool),
}

impl View for FetchEvent {
    type V = FetchEventView;

    open spec fn view(&self) -> FetchEventView {
        match self {
            FetchEvent::Start => FetchEventView::Start,
            FetchEvent::Config(outcome) => FetchEventView::Config(outcome_view(*outcome)),
            FetchEvent::Redirected(outcome) => FetchEventView::Redirected(outcome_view(*outcome)),
            FetchEvent::Downloaded(outcome) => FetchEventView::Downloaded(outcome_view(*outcome)),
            FetchEvent::Persisted(written) => FetchEventView::Persisted(*written),
        }
    }
}

/// What to do next for one package.
#[derive(Debug, PartialEq, Eq)]
pub enum FetchAction {
    /// Request the configuration document at this URL; answer with
    /// [`FetchEvent::Config`].
    FetchConfig(String),
    /// Request this URL, to which the registry redirected; answer with
    /// [`FetchEvent::Redirected`].
    FollowRedirect(String),
    /// Request the archive at this URL; answer with [`FetchEvent::Downloaded`].
    Download(String),
    /// Write exactly these bytes to exactly this path; answer with
    /// [`FetchEvent::Persisted`].
    Persist { path: String, bytes: Vec<u8> },
    /// The package is done with.
    Done(Result<(), FetchError>),
}

/// A fetch action, as plain values.
pub enum FetchActionView {
    FetchConfig(Seq<char>),
    FollowRedirect(Seq<char>),
    Download(Seq<char>),
    Persist { path: Seq<char>, bytes: Seq<u8> },
    Done(Result<(), FetchError>),
}

impl View for FetchAction {
    type V = FetchActionView;

    open spec fn view(&self) -> FetchActionView {
        match self {
            FetchAction::FetchConfig(url) => FetchActionView::FetchConfig(url@),
            FetchAction::FollowRedirect(url) => FetchActionView::FollowRedirect(url@),
            FetchAction::Download(url) => FetchActionView::Download(url@),
            FetchAction::Persist { path, bytes } => FetchActionView::Persist {
                path: path@,
                bytes: bytes@,
            },
            FetchAction::Done(end) => FetchActionView::Done(*end),
        }
    }
}

impl FetchActionView {
    /// The action asks for an HTTP request.
    pub open spec fn is_request(self) -> bool {
        self is FetchConfig || self is FollowRedirect || self is Download
    }
}

/// The action that a resolution step calls for: a link, once made, is
/// downloaded.
pub open spec fn action_of_resolve(step: ResolveStepView) -> FetchActionView {
    match step {
        ResolveStepView::FetchConfig(url) => FetchActionView::FetchConfig(url),
        ResolveStepView::FollowRedirect(url) => FetchActionView::FollowRedirect(url),
        ResolveStepView::Resolved(link) => FetchActionView::Download(link),
        ResolveStepView::Failed(error) => FetchActionView::Done(
            Err(FetchError::Resolution(error)),
        ),
    }
}

/// The action that a download step calls for.
pub open spec fn action_of_download(step: DownloadStepView) -> FetchActionView {
    match step {
        DownloadStepView::Persist { path, bytes } => FetchActionView::Persist { path, bytes },
        DownloadStepView::Failed(error) => FetchActionView::Done(Err(FetchError::Download(error))),
    }
}

/// The path of a target's archive.
pub open spec fn target_path_text(target: CargoCacheCrateView) -> Seq<char> {
    cache_path_text(
        target.cargo_dir,
        target.registry_name,
        target.record.crate_name,
        target.record.version,
    )
}

/// The next action for a package, and the base URL that the resolver holds
/// after it.
pub open spec fn fetch_step(
    resolver: ResolverView,
    target: CargoCacheCrateView,
    event: FetchEventView,
) -> (Option<Seq<char>>, FetchActionView) {
    let cached = resolver.cached_registry_dl_url;
    match event {
        FetchEventView::Start => (
            dl_url_step(resolver, ResolveEventView::Start).0,
            action_of_resolve(
                link_step(dl_url_step(resolver, ResolveEventView::Start).1, target.record),
            ),
        ),
        FetchEventView::Config(outcome) => (
            dl_url_step(resolver, ResolveEventView::Config(outcome)).0,
            action_of_resolve(
                link_step(
                    dl_url_step(resolver, ResolveEventView::Config(outcome)).1,
                    target.record,
                ),
            ),
        ),
        FetchEventView::Redirected(outcome) => (
            dl_url_step(resolver, ResolveEventView::Redirected(outcome)).0,
            action_of_resolve(
                link_step(
                    dl_url_step(resolver, ResolveEventView::Redirected(outcome)).1,
                    target.record,
                ),
            ),
        ),
        FetchEventView::Downloaded(outcome) => (
            cached,
            action_of_download(
                download_step(outcome, target_path_text(target), target.record.checksum->0),
            ),
        ),
        FetchEventView::Persisted(written) => (
            cached,
            FetchActionView::Done(
                if written {
                    Ok(())
                } else {
                    Err(FetchError::Download(DownloadError::Io))
                },
            ),
        ),
    }
}

fn resolve_action(step: ResolveStep) -> (action: FetchAction)
    ensures
        action@ == action_of_resolve(step@),
{
    match step {
        ResolveStep::FetchConfig(url) => FetchAction::FetchConfig(url),
        ResolveStep::FollowRedirect(url) => FetchAction::FollowRedirect(url),
        ResolveStep::Resolved(link) => FetchAction::Download(link),
        ResolveStep::Failed(error) => FetchAction::Done(Err(FetchError::Resolution(error))),
    }
}

/// Takes the fetching of one package one step further.
///
/// The package's link is resolved first. The archive is then requested
/// from that link, and its body is handed over for writing, to the
/// target's own path, only where it has the checksum that the package
/// declares. The package is fetched once the bytes are written.
pub fn fetch_crate(
    resolver: &mut RemoteRegistrySourceResolver,
    target: &CargoCacheCrate,
    event: FetchEvent,
) -> (action: FetchAction)
    requires
        event is Downloaded ==> target@.record.checksum is Some,
    ensures
        final(resolver)@.remote_registry_url == old(resolver)@.remote_registry_url,
        final(resolver)@.cached_registry_dl_url == fetch_step(old(resolver)@, target@, event@).0,
        action@ == fetch_step(old(resolver)@, target@, event@).1,
{
    match event {
        FetchEvent::Start => resolve_action(
            resolver.resolve_crate(target.cargo_crate(), ResolveEvent::Start),
        ),
        FetchEvent::Config(outcome) => resolve_action(
            resolver.resolve_crate(target.cargo_crate(), ResolveEvent::Config(outcome)),
        ),
        FetchEvent::Redirected(outcome) => resolve_action(
            resolver.resolve_crate(target.cargo_crate(), ResolveEvent::Redirected(outcome)),
        ),
        FetchEvent::Downloaded(outcome) => {
            let path = target.target_path();
            match checked_download(outcome, path.as_str(), target.checksum()) {
                DownloadStep::Persist { path, bytes } => FetchAction::Persist { path, bytes },
                DownloadStep::Failed(error) => FetchAction::Done(Err(FetchError::Download(error))),
            }
        },
        FetchEvent::Persisted(written) => match persisted(written) {
            Ok(()) => FetchAction::Done(Ok(())),
            Err(error) => FetchAction::Done(Err(FetchError::Download(error))),
        },
    }
}

/// A package is reported fetched only in answer to a write that succeeded,
/// and bytes are handed over for writing only in answer to a download whose
/// body has the checksum that the package declares: they are that body, and
/// the path is the target's own.
pub proof fn lemma_fetched_means_verified_and_written(
    resolver: ResolverView,
    target: CargoCacheCrateView,
    event: FetchEventView,
)
    ensures
        fetch_step(resolver, target, event).1 == FetchActionView::Done(Ok(())) ==> event
            == FetchEventView::Persisted(true),
        fetch_step(resolver, target, event).1 matches FetchActionView::Persist { path, bytes } ==> {
            &&& event matches FetchEventView::Downloaded(Some(response))
            &&& bytes == response.body
            &&& path == target_path_text(target)
            &&& checksum_verifies(bytes, target.record.checksum->0)
        },
{
}

/// A package calls for at most one request at a time, in this order: for the
/// configuration document, for the target of a redirection, for the archive.
/// What answers a request never calls for a request of its own kind or of
/// an earlier one.
pub proof fn lemma_requests_go_forward(
    resolver: ResolverView,
    target: CargoCacheCrateView,
    outcome: Option<HttpResponseView>,
    written: bool,
)
    ensures
        !(fetch_step(resolver, target, FetchEventView::Start).1 is FollowRedirect),
        fetch_step(resolver, target, FetchEventView::Start).1 is FetchConfig
            <==> resolver.cached_registry_dl_url is None,
        !(fetch_step(resolver, target, FetchEventView::Config(outcome)).1 is FetchConfig),
        !(fetch_step(resolver, target, FetchEventView::Redirected(outcome)).1 is FetchConfig),
        !(fetch_step(resolver, target, FetchEventView::Redirected(outcome)).1 is FollowRedirect),
        !fetch_step(resolver, target, FetchEventView::Downloaded(outcome)).1.is_request(),
        fetch_step(resolver, target, FetchEventView::Persisted(written)).1 is Done,
{
}

/// How the fetching of one package ended.
pub type FetchResult = Result<(), FetchError>;

/// `pending` lists, in rising order, exactly the packages that are not in
/// the cache: the positions at which `cached` is false.
pub open spec fn is_pending_list(cached: Seq<bool>, pending: Seq<usize>) -> bool {
    &&& forall|k: int|
        0 <= k < pending.len() ==> (#[trigger] pending[k]) < cached.len()
            && !cached[pending[k] as int]
    &&& forall|k: int, l: int|
        0 <= k < l < pending.len() ==> (#[trigger] pending[k]) < (#[trigger] pending[l])
    &&& forall|i: int|
        0 <= i < cached.len() && !(#[trigger] cached[i]) ==> exists|k: int|
            0 <= k < pending.len() && #[trigger] pending[k] == i
}

/// The result of a package that was fetched.
pub open spec fn fetched(result: Option<FetchResult>) -> bool {
    result matches Some(Ok(_))
}

/// Every package has a result.
pub open spec fn all_done(results: Seq<Option<FetchResult>>) -> bool {
    forall|slot: int| 0 <= slot < results.len() ==> (#[trigger] results[slot]) is Some
}

/// Every package was fetched.
pub open spec fn all_fetched(results: Seq<Option<FetchResult>>) -> bool {
    forall|slot: int| 0 <= slot < results.len() ==> fetched(#[trigger] results[slot])
}

/// The package at `slot` failed with `error`, and every package submitted
/// before it was fetched.
pub open spec fn first_failure(
    results: Seq<Option<FetchResult>>,
    slot: int,
    error: FetchError,
) -> bool {
    &&& 0 <= slot < results.len()
    &&& results[slot] == Some(Err::<(), FetchError>(error))
    &&& forall|earlier: int| 0 <= earlier < slot ==> fetched(#[trigger] results[earlier])
}

/// The number of packages that were fetched.
pub open spec fn fetched_count(results: Seq<Option<FetchResult>>) -> nat
    decreases results.len(),
{
    if results.len() == 0 {
        0
    } else {
        fetched_count(results.drop_last()) + if fetched(results.last()) {
            1nat
        } else {
            0nat
        }
    }
}

/// The results of a run in which nothing has been reported yet.
pub open spec fn no_results(slots: nat) -> Seq<Option<FetchResult>> {
    Seq::new(slots, |slot: int| None::<FetchResult>)
}

/// The results after the package at `slot` has reported `result`: the
/// report fills the slot where the slot exists and is still empty, and
/// changes nothing otherwise.
pub open spec fn recorded(
    results: Seq<Option<FetchResult>>,
    slot: int,
    result: FetchResult,
) -> Seq<Option<FetchResult>> {
    if 0 <= slot < results.len() && results[slot] is None {
        results.update(slot, Some(result))
    } else {
        results
    }
}

/// The results after a series of reports, each a slot and a result, taken
/// in the order in which they came in.
pub open spec fn recorded_all(
    results: Seq<Option<FetchResult>>,
    reports: Seq<(int, FetchResult)>,
) -> Seq<Option<FetchResult>>
    decreases reports.len(),
{
    if reports.len() == 0 {
        results
    } else {
        recorded(
            recorded_all(results, reports.drop_last()),
            reports.last().0,
            reports.last().1,
        )
    }
}

/// Where a package of a run stands.
#[derive(Debug, Clone, Copy, PartialEq, Eq, Structural)]
pub enum PackageStatus {
    /// Its archive was in the cache when the run began.
    AlreadyCached,
    /// It is pending and has no result yet.
    Unfinished,
    /// Its archive was verified and written in this run.
    Fetched,
    /// It was not fetched.
    Failed(FetchError),
}

/// The status that a pending package's result stands for.
pub open spec fn status_of(result: Option<FetchResult>) -> PackageStatus {
    match result {
        None => PackageStatus::Unfinished,
        Some(Ok(_)) => PackageStatus::Fetched,
        Some(Err(error)) => PackageStatus::Failed(error),
    }
}

/// `statuses` tells of each package of the run where it stands: a package
/// that was in the cache is marked so, and every pending package has the
/// status that its slot's result stands for.
pub open spec fn is_status_list(run: FetchPipelineView, statuses: Seq<PackageStatus>) -> bool {
    &&& statuses.len() == run.cached.len()
    &&& forall|package: int|
        0 <= package < run.cached.len() && #[trigger] run.cached[package] ==> statuses[package]
            == PackageStatus::AlreadyCached
    &&& forall|slot: int|
        0 <= slot < run.pending.len() ==> statuses[(#[trigger] run.pending[slot]) as int]
            == status_of(run.results[slot])
}

/// One run: which packages are pending, and the result of each of them so
/// far, by the order in which they were submitted.
#[derive(Debug)]
pub struct FetchPipeline {
    cached: Vec<bool>,
    pending: Vec<usize>,
    results: Vec<Option<FetchResult>>,
}

/// A run, as plain values.
pub struct FetchPipelineView {
    /// For each package of the run, whether its archive was in the cache
    /// when the run began.
    pub cached: Seq<bool>,
    /// The positions of the packages to fetch.
    pub pending: Seq<usize>,
    /// For each pending package, its result, once it has one.
    pub results: Seq<Option<FetchResult>>,
}

impl View for FetchPipeline {
    type V = FetchPipelineView;

    closed spec fn view(&self) -> FetchPipelineView {
        FetchPipelineView { cached: self.cached@, pending: self.pending@, results: self.results@ }
    }
}

impl FetchPipelineView {
    pub open spec fn wf(self) -> bool {
        &&& is_pending_list(self.cached, self.pending)
        &&& self.results.len() == self.pending.len()
    }
}

impl FetchPipeline {
    #[verifier::type_invariant]
    spec fn well_formed(self) -> bool {
        self@.wf()
    }

    /// A run over packages of which `cached[i]` says whether the archive of
    /// package `i` is in the cache already. Those that are not are pending,
    /// in the order of the packages, and none has a result yet.
    pub fn new(cached: Vec<bool>) -> (pipeline: Self)
        ensures
            pipeline@.wf(),
            pipeline@.cached == cached@,
            forall|slot: int|
                0 <= slot < pipeline@.results.len() ==> (#[trigger] pipeline@.results[slot])
                    is None,
    {
        let mut pending: Vec<usize> = Vec::new();
        let mut results: Vec<Option<FetchResult>> = Vec::new();
        let mut i: usize = 0;
        while i < cached.len()
            invariant
                i <= cached@.len(),
                is_pending_list(cached@.take(i as int), pending@),
                results@.len() == pending@.len(),
                forall|slot: int|
                    0 <= slot < results@.len() ==> (#[trigger] results@[slot]) is None,
            decreases cached@.len() - i,
        {
            let ghost before = pending@;
            if !cached[i] {
                pending.push(i);
                results.push(None);
            }
            proof {
                let now = cached@.take(i + 1);
                assert forall|k: int| 0 <= k < pending@.len() implies (#[trigger] pending@[k])
                    < now.len() && !now[pending@[k] as int] by {
                    if k < before.len() {
                        assert(before[k] < cached@.take(i as int).len());
                        assert(!cached@.take(i as int)[before[k] as int]);
                    }
                }
                assert forall|k: int, l: int| 0 <= k < l < pending@.len() implies (
                #[trigger] pending@[k]) < (#[trigger] pending@[l]) by {
                    if l < before.len() {
                        assert(before[k] < before[l]);
                    } else {
                        assert(before[k] < cached@.take(i as int).len());
                    }
                }
                assert forall|j: int| 0 <= j < now.len() && !(#[trigger] now[j]) implies exists|
                    k: int,
                | 0 <= k < pending@.len() && #[trigger] pending@[k] == j by {
                    if j < i {
                        assert(!cached@.take(i as int)[j]);
                        let k = choose|k: int| 0 <= k < before.len() && #[trigger] before[k] == j;
                        assert(pending@[k] == j);
                    } else {
                        assert(pending@[pending@.len() - 1] == j);
                    }
                }
            }
            i += 1;
        }
        assert(cached@.take(cached@.len() as int) == cached@);
        FetchPipeline { cached, pending, results }
    }

    /// The number of packages whose archives were in the cache already.
    pub fn fetched_crates(&self) -> (n: usize)
        ensures
            self@.wf(),
            n + self@.pending.len() == self@.cached.len(),
    {
        proof {
            use_type_invariant(self);
            lemma_pending_is_no_longer(self@.cached, self@.pending);
        }
        self.cached.len() - self.pending.len()
    }

    /// The number of packages to fetch.
    pub fn unfetched_crates(&self) -> (n: usize)
        ensures
            self@.wf(),
            n == self@.pending.len(),
    {
        proof {
            use_type_invariant(self);
        }
        self.pending.len()
    }

    /// The positions of the packages to fetch, in the order in which the
    /// packages were submitted. The place of a position in this list is the
    /// package's slot.
    pub fn pending(&self) -> (pending: &Vec<usize>)
        ensures
            self@.wf(),
            pending@ == self@.pending,
    {
        proof {
            use_type_invariant(self);
        }
        &self.pending
    }

    /// Takes in the result of the package at `slot`. The first report for a
    /// slot stands; a report for a slot that has a result, or for no slot of
    /// this run, is refused and changes nothing.
    pub fn record(&mut self, slot: usize, result: FetchResult) -> (accepted: bool)
        ensures
            final(self)@.wf(),
            final(self)@.cached == old(self)@.cached,
            final(self)@.pending == old(self)@.pending,
            final(self)@.results == recorded(old(self)@.results, slot as int, result),
            accepted == (slot < old(self)@.results.len()
                && old(self)@.results[slot as int] is None),
    {
        proof {
            use_type_invariant(&*self);
        }
        if slot < self.results.len() && self.results[slot].is_none() {
            self.results[slot] = Some(result);
            true
        } else {
            false
        }
    }

    /// The results so far, by slot.
    pub fn results(&self) -> (results: &Vec<Option<FetchResult>>)
        ensures
            self@.wf(),
            results@ == self@.results,
    {
        proof {
            use_type_invariant(self);
        }
        &self.results
    }

    /// Where each package of the run stands, by the order of the packages.
    pub fn statuses(&self) -> (statuses: Vec<PackageStatus>)
        ensures
            is_status_list(self@, statuses@),
    {
        proof {
            use_type_invariant(self);
        }
        let mut statuses: Vec<PackageStatus> = Vec::new();
        let mut slot: usize = 0;
        let mut package: usize = 0;
        while package < self.cached.len()
            invariant
                self@.wf(),
                package <= self.cached@.len(),
                slot <= self.pending@.len(),
                statuses@.len() == package,
                forall|k: int| 0 <= k < slot ==> (#[trigger] self.pending@[k]) < package,
                forall|k: int|
                    slot <= k < self.pending@.len() ==> (#[trigger] self.pending@[k]) >= package,
                forall|at: int|
                    0 <= at < package && #[trigger] self.cached@[at] ==> statuses@[at]
                        == PackageStatus::AlreadyCached,
                forall|k: int|
                    0 <= k < slot ==> statuses@[(#[trigger] self.pending@[k]) as int] == status_of(
                        self.results@[k],
                    ),
            decreases self.cached@.len() - package,
        {
            let ghost before = statuses@;
            if self.cached[package] {
                statuses.push(PackageStatus::AlreadyCached);
                assert forall|k: int| slot <= k < self.pending@.len() implies (
                #[trigger] self.pending@[k]) >= package + 1 by {
                    assert(!self.cached@[self.pending@[k] as int]);
                }
            } else {
                proof {
                    let k = choose|k: int|
                        0 <= k < self.pending@.len() && #[trigger] self.pending@[k] == package;
                    if k > slot {
                        assert(self.pending@[slot as int] < self.pending@[k]);
                    }
                    assert(k == slot);
                    assert(slot < self.pending.len());
                }
                let status = match self.results[slot] {
                    None => PackageStatus::Unfinished,
                    Some(Ok(_)) => PackageStatus::Fetched,
                    Some(Err(error)) => PackageStatus::Failed(error),
                };
                statuses.push(status);
                assert forall|k: int| slot + 1 <= k < self.pending@.len() implies (
                #[trigger] self.pending@[k]) >= package + 1 by {
                    assert(self.pending@[slot as int] < self.pending@[k]);
                }
                slot += 1;
            }
            assert forall|k: int| 0 <= k < slot implies statuses@[(
            #[trigger] self.pending@[k]) as int] == status_of(self.results@[k]) by {
                if self.pending@[k] < package {
                    assert(statuses@[self.pending@[k] as int] == before[self.pending@[k] as int]);
                }
            }
            package += 1;
        }
        proof {
            // No pending package is left: each lies before the end of the run.
            if slot < self.pending@.len() {
                assert(self.pending@[slot as int] >= package);
                assert(self.pending@[slot as int] < self.cached@.len());
            }
        }
        statuses
    }

    /// The number of packages that were fetched in this run.
    pub fn newly_fetched(&self) -> (n: usize)
        ensures
            n == fetched_count(self@.results),
    {
        let mut n: usize = 0;
        let mut slot: usize = 0;
        while slot < self.results.len()
            invariant
                slot <= self.results@.len(),
                n <= slot,
                n == fetched_count(self.results@.take(slot as int)),
            decreases self.results@.len() - slot,
        {
            proof {
                let after = self.results@.take(slot + 1);
                assert(after.drop_last() == self.results@.take(slot as int));
                assert(after.last() == self.results@[slot as int]);
            }
            match self.results[slot] {
                Some(Ok(_)) => {
                    n += 1;
                },
                _ => {},
            }
            slot += 1;
        }
        assert(self.results@.take(self.results@.len() as int) == self.results@);
        n
    }

    /// How the run ended: nothing while a package is without a result;
    /// success where every package was fetched; otherwise the failure of
    /// the first package, in the order of submission, that failed.
    pub fn finish(&self) -> (end: Option<FetchResult>)
        ensures
            end is None <==> !all_done(self@.results),
            fetched(end) <==> all_fetched(self@.results),
            end matches Some(Err(error)) ==> exists|slot: int|
                #[trigger] first_failure(self@.results, slot, error),
    {
        let mut failure: Option<FetchError> = None;
        let ghost mut failed_at: int = 0;
        let mut slot: usize = 0;
        while slot < self.results.len()
            invariant
                slot <= self.results@.len(),
                forall|at: int| 0 <= at < slot ==> (#[trigger] self.results@[at]) is Some,
                failure is None ==> forall|at: int|
                    0 <= at < slot ==> fetched(#[trigger] self.results@[at]),
                failure matches Some(error) ==> first_failure(self.results@, failed_at, error),
            decreases self.results@.len() - slot,
        {
            match self.results[slot] {
                None => {
                    return None;
                },
                Some(Ok(_)) => {},
                Some(Err(error)) => {
                    if failure.is_none() {
                        failure = Some(error);
                        proof {
                            failed_at = slot as int;
                        }
                    }
                },
            }
            slot += 1;
        }
        match failure {
            Some(error) => {
                assert(!fetched(self.results@[failed_at]));
                Some(Err(error))
            },
            None => Some(Ok(())),
        }
    }
}

/// A pending list is no longer than the list of packages.
pub proof fn lemma_pending_is_no_longer(cached: Seq<bool>, pending: Seq<usize>)
    requires
        is_pending_list(cached, pending),
    ensures
        pending.len() <= cached.len(),
    decreases pending.len(),
{
    if pending.len() > 0 {
        // The entries rise, so entry `k` is at least `k`.
        lemma_rising_entries(pending, pending.len() - 1);
    }
}

/// In a rising list of positions, the entry at place `k` is at least `k`.
proof fn lemma_rising_entries(pending: Seq<usize>, k: int)
    requires
        0 <= k < pending.len(),
        forall|a: int, b: int|
            0 <= a < b < pending.len() ==> (#[trigger] pending[a]) < (#[trigger] pending[b]),
    ensures
        pending[k] >= k,
    decreases k,
{
    if k > 0 {
        lemma_rising_entries(pending, k - 1);
        assert(pending[k - 1] < pending[k]);
    }
}

/// A package whose archive is in the cache has no slot: it is not pending,
/// so nothing is ever asked for on its behalf.
pub proof fn lemma_cached_is_not_pending(cached: Seq<bool>, pending: Seq<usize>, package: int)
    requires
        is_pending_list(cached, pending),
        0 <= package < cached.len(),
        cached[package],
    ensures
        forall|slot: int| 0 <= slot < pending.len() ==> #[trigger] pending[slot] != package,
{
}

/// A package whose archive is not in the cache has exactly one slot.
pub proof fn lemma_uncached_has_one_slot(cached: Seq<bool>, pending: Seq<usize>, package: int)
    requires
        is_pending_list(cached, pending),
        0 <= package < cached.len(),
        !cached[package],
    ensures
        exists|slot: int| 0 <= slot < pending.len() && #[trigger] pending[slot] == package,
        forall|a: int, b: int|
            0 <= a < pending.len() && 0 <= b < pending.len() && #[trigger] pending[a] == package
                && #[trigger] pending[b] == package ==> a == b,
{
    assert forall|a: int, b: int|
        0 <= a < pending.len() && 0 <= b < pending.len() && #[trigger] pending[a] == package
            && #[trigger] pending[b] == package implies a == b by {
        if a < b {
            assert(pending[a] < pending[b]);
        } else if b < a {
            assert(pending[b] < pending[a]);
        }
    }
}

/// A series of reports leaves as many slots as there were.
pub proof fn lemma_recorded_all_len(
    results: Seq<Option<FetchResult>>,
    reports: Seq<(int, FetchResult)>,
)
    ensures
        recorded_all(results, reports).len() == results.len(),
    decreases reports.len(),
{
    if reports.len() > 0 {
        lemma_recorded_all_len(results, reports.drop_last());
    }
}

/// After some reports for distinct slots, each reported slot holds what was
/// reported for it, and every other slot is empty.
proof fn lemma_recorded_distinct(slots: nat, reports: Seq<(int, FetchResult)>)
    requires
        forall|k: int| 0 <= k < reports.len() ==> 0 <= (#[trigger] reports[k]).0 < slots,
        forall|k: int, l: int|
            0 <= k < l < reports.len() ==> (#[trigger] reports[k]).0 != (#[trigger] reports[l]).0,
    ensures
        recorded_all(no_results(slots), reports).len() == slots,
        forall|k: int|
            0 <= k < reports.len() ==> recorded_all(
                no_results(slots),
                reports,
            )[(#[trigger] reports[k]).0] == Some(reports[k].1),
        forall|slot: int|
            0 <= slot < slots && (forall|k: int|
                0 <= k < reports.len() ==> (#[trigger] reports[k]).0 != slot) ==> (
            #[trigger] recorded_all(no_results(slots), reports)[slot]) is None,
    decreases reports.len(),
{
    let empty = no_results(slots);
    lemma_recorded_all_len(empty, reports);
    if reports.len() > 0 {
        let earlier = reports.drop_last();
        let last = reports.last();
        assert forall|k: int| 0 <= k < earlier.len() implies 0 <= (#[trigger] earlier[k]).0
            < slots by {
            assert(earlier[k] == reports[k]);
        }
        assert forall|k: int, l: int| 0 <= k < l < earlier.len() implies (#[trigger] earlier[k]).0
            != (#[trigger] earlier[l]).0 by {
            assert(earlier[k] == reports[k]);
            assert(earlier[l] == reports[l]);
        }
        lemma_recorded_distinct(slots, earlier);
        let before = recorded_all(empty, earlier);
        assert(reports[reports.len() - 1] == last);
        assert forall|k: int| 0 <= k < earlier.len() implies (#[trigger] earlier[k]).0
            != last.0 by {
            assert(earlier[k] == reports[k]);
        }
        assert(before[last.0] is None);
        let after = recorded_all(empty, reports);
        assert(after == before.update(last.0, Some(last.1)));
        assert forall|k: int| 0 <= k < reports.len() implies after[(#[trigger] reports[k]).0]
            == Some(reports[k].1) by {
            if k < earlier.len() {
                assert(earlier[k] == reports[k]);
                assert(before[earlier[k].0] == Some(earlier[k].1));
            }
        }
        assert forall|slot: int|
            0 <= slot < slots && (forall|k: int|
                0 <= k < reports.len() ==> (#[trigger] reports[k]).0 != slot) implies (
        #[trigger] after[slot]) is None by {
            assert forall|k: int| 0 <= k < earlier.len() implies (#[trigger] earlier[k]).0
                != slot by {
                assert(earlier[k] == reports[k]);
            }
            assert(last.0 != slot);
            assert(before[slot] is None);
        }
    }
}

/// The results keep the order of submission, whatever the order of
/// completion.
///
/// Let each pending package report once, in any order: `order` lists the
/// slots as they complete, and `results[slot]` is what the package at `slot`
/// reports. Then the run holds exactly `results`, slot by slot.
pub proof fn lemma_results_keep_submission_order(results: Seq<FetchResult>, order: Seq<int>)
    requires
        order.len() == results.len(),
        forall|k: int| 0 <= k < order.len() ==> 0 <= (#[trigger] order[k]) < results.len(),
        forall|k: int, l: int|
            0 <= k < l < order.len() ==> (#[trigger] order[k]) != (#[trigger] order[l]),
        forall|slot: int| 0 <= slot < results.len() ==> #[trigger] order.contains(slot),
    ensures
        recorded_all(
            no_results(results.len()),
            Seq::new(order.len(), |k: int| (order[k], results[order[k]])),
        ) == Seq::new(results.len(), |slot: int| Some(results[slot])),
{
    let reports = Seq::new(order.len(), |k: int| (order[k], results[order[k]]));
    let empty = no_results(results.len());
    assert forall|k: int| 0 <= k < reports.len() implies 0 <= (#[trigger] reports[k]).0
        < results.len() by {
        assert(reports[k].0 == order[k]);
    }
    assert forall|k: int, l: int| 0 <= k < l < reports.len() implies (#[trigger] reports[k]).0
        != (#[trigger] reports[l]).0 by {
        assert(reports[k].0 == order[k]);
        assert(reports[l].0 == order[l]);
    }
    lemma_recorded_distinct(results.len(), reports);
    let end = recorded_all(empty, reports);
    assert forall|slot: int| 0 <= slot < results.len() implies end[slot] == Some(
        results[slot],
    ) by {
        assert(order.contains(slot));
        let k = choose|k: int| 0 <= k < order.len() && order[k] == slot;
        assert(reports[k].0 == slot);
        assert(end[reports[k].0] == Some(reports[k].1));
    }
    assert(end =~= Seq::new(results.len(), |slot: int| Some(results[slot])));
}

} // verus!
