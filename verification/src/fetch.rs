//! The fetch and cache pipeline of one request, as a machine that is told
//! what happened and answers what to do next.
//!
//! A run begins with `Begin` and goes on until the machine answers `Done`
//! or `Fail`. The archive is written under a name of its own beside the
//! cache entry and only becomes the cache entry once it was unpacked, so
//! that a run that broke leaves no entry behind.

use vstd::prelude::*;
use vstd::string::*;
use crate::error::FdmError;
use crate::registry::registry::{url_of_request, IndexView, Registry};
use crate::types::dependencies::{cache_path_text, Dependency, DependencyView};
use crate::types::platform::PlatformArch;

verus! {

/// How far a run has come.
#[derive(Debug, Clone, Copy, PartialEq, Eq, Structural)]
pub enum Phase {
    /// Nothing was done yet.
    Idle,
    /// The cache entry is being looked for.
    Probing,
    /// The archive was asked for and no answer came yet.
    Requesting,
    /// The body of the answer is being written to the archive.
    Streaming,
    /// The archive is being unpacked into the tree of libraries.
    Extracting,
    /// What was downloaded is being made the cache entry.
    Publishing,
    /// The package is staged.
    Finished,
    /// The run has failed.
    Failed,
}

/// The state of a run: its phase, and how many bytes of how many were
/// written.
#[derive(Debug, Clone, Copy, PartialEq, Eq, Structural)]
pub struct Fetch {
    pub phase: Phase,
    pub downloaded: u64,
    pub total: u64,
}

/// What happened since the machine last answered.
#[derive(Debug, Clone, Copy, PartialEq, Eq, Structural)]
pub enum FetchEvent {
    /// The run is to begin.
    Begin,
    /// The cache entry was looked for: whether its directory is there and
    /// whether that directory is empty.
    Cache { present: bool, empty: bool },
    /// The answer to the request came, with its status and, where the
    /// answer tells it, the length of its body.
    Response { status: u16, length: Option<u64> },
    /// A part of the body, of so many bytes, was written to the archive.
    Chunk { len: u64 },
    /// The body has ended.
    EndOfStream,
    /// The transport or the archive file failed.
    Broken,
    /// The archive was unpacked.
    Unpacked,
    /// The archive could not be unpacked.
    UnpackFailed,
    /// What was downloaded has become the cache entry.
    Published,
}

/// What is to be done next.
#[derive(Debug, PartialEq, Eq)]
pub enum FetchAction {
    /// Look whether `directory` is there and whether it is empty.
    Probe { directory: String },
    /// Create `directory`, ask for `url` and write what comes to `archive`.
    Download { url: String, directory: String, archive: String },
    /// Read on; `position` bytes are written.
    Receive { position: u64 },
    /// Unpack `archive` into `target`, leaving out the first `strip`
    /// components of every path in it.
    Unpack { archive: String, target: String, strip: u32 },
    /// Rename the directory `from` to `to`.
    Publish { from: String, to: String },
    /// The package is staged in `staged`; the run is over.
    Done { staged: String },
    /// The run is over and has failed.
    Fail { error: FdmError },
}

/// What a [`FetchAction`] stands for.
pub enum ActionView {
    Probe { directory: Seq<char> },
    Download { url: Seq<char>, directory: Seq<char>, archive: Seq<char> },
    Receive { position: u64 },
    Unpack { archive: Seq<char>, target: Seq<char>, strip: u32 },
    Publish { from: Seq<char>, to: Seq<char> },
    Done { staged: Seq<char> },
    Fail { error: FdmError },
}

impl View for FetchAction {
    type V = ActionView;

    open spec fn view(&self) -> ActionView {
        match self {
            FetchAction::Probe { directory } => ActionView::Probe { directory: directory@ },
            FetchAction::Download { url, directory, archive } => ActionView::Download {
                url: url@,
                directory: directory@,
                archive: archive@,
            },
            FetchAction::Receive { position } => ActionView::Receive { position: *position },
            FetchAction::Unpack { archive, target, strip } => ActionView::Unpack {
                archive: archive@,
                target: target@,
                strip: *strip,
            },
            FetchAction::Publish { from, to } => ActionView::Publish { from: from@, to: to@ },
            FetchAction::Done { staged } => ActionView::Done { staged: staged@ },
            FetchAction::Fail { error } => ActionView::Fail { error: *error },
        }
    }
}

/// The directory in which a package is staged, from the working directory
/// of the project.
pub open spec fn staging_path_text(name: Seq<char>) -> Seq<char> {
    "fdm/pack/libs/"@ + name
}

/// The directory that holds a download until it becomes the cache entry.
pub open spec fn partial_path_text(name: Seq<char>, d: DependencyView, host: PlatformArch) -> Seq<
    char,
> {
    cache_path_text(name, d, host) + ".partial"@
}

/// The file that the archive is written to.
pub open spec fn archive_path_text(name: Seq<char>, d: DependencyView, host: PlatformArch) -> Seq<
    char,
> {
    partial_path_text(name, d, host) + "/archive.tar.gz"@
}

/// Whether a status is one of success.
pub open spec fn status_is_success(status: u16) -> bool {
    200 <= status < 300
}

/// How many bytes are written after `len` more, never shown as more than
/// the whole.
pub open spec fn progress_after(downloaded: u64, len: u64, total: u64) -> u64 {
    if downloaded + len <= total {
        (downloaded + len) as u64
    } else {
        total
    }
}

/// The state with another phase.
pub open spec fn in_phase(state: Fetch, phase: Phase) -> Fetch {
    Fetch { phase, downloaded: state.downloaded, total: state.total }
}

/// The next state and what is to be done, from the state of a run and
/// what happened. A cache entry that is there and not empty stages the
/// package at once. An event that the phase does not wait for fails the
/// run as a failed download.
pub open spec fn fetch_step(
    index: IndexView,
    host: PlatformArch,
    name: Seq<char>,
    request: DependencyView,
    state: Fetch,
    event: FetchEvent,
) -> (Fetch, ActionView) {
    match (state.phase, event) {
        (Phase::Idle, FetchEvent::Begin) => (
            in_phase(state, Phase::Probing),
            ActionView::Probe { directory: cache_path_text(name, request, host) },
        ),
        (Phase::Probing, FetchEvent::Cache { present, empty }) => {
            if present && !empty {
                (
                    in_phase(state, Phase::Finished),
                    ActionView::Done { staged: staging_path_text(name) },
                )
            } else {
                match url_of_request(index, name, request, host) {
                    Some(url) => (
                        in_phase(state, Phase::Requesting),
                        ActionView::Download {
                            url,
                            directory: partial_path_text(name, request, host),
                            archive: archive_path_text(name, request, host),
                        },
                    ),
                    None => (
                        in_phase(state, Phase::Failed),
                        ActionView::Fail { error: FdmError::DependencyNotFound },
                    ),
                }
            }
        },
        (Phase::Requesting, FetchEvent::Response { status, length }) => {
            if status_is_success(status) {
                (
                    Fetch {
                        phase: Phase::Streaming,
                        downloaded: 0,
                        total: match length {
                            Some(n) => n,
                            None => 1,
                        },
                    },
                    ActionView::Receive { position: 0 },
                )
            } else {
                (
                    in_phase(state, Phase::Failed),
                    ActionView::Fail { error: FdmError::DownloadFailed },
                )
            }
        },
        (Phase::Streaming, FetchEvent::Chunk { len }) => (
            Fetch {
                phase: Phase::Streaming,
                downloaded: progress_after(state.downloaded, len, state.total),
                total: state.total,
            },
            ActionView::Receive { position: progress_after(state.downloaded, len, state.total) },
        ),
        (Phase::Streaming, FetchEvent::EndOfStream) => (
            in_phase(state, Phase::Extracting),
            ActionView::Unpack {
                archive: archive_path_text(name, request, host),
                target: staging_path_text(name),
                strip: 1,
            },
        ),
        (Phase::Extracting, FetchEvent::Unpacked) => (
            in_phase(state, Phase::Publishing),
            ActionView::Publish {
                from: partial_path_text(name, request, host),
                to: cache_path_text(name, request, host),
            },
        ),
        (Phase::Extracting, FetchEvent::UnpackFailed) => (
            in_phase(state, Phase::Failed),
            ActionView::Fail { error: FdmError::ExtractionFailed },
        ),
        (Phase::Publishing, FetchEvent::Published) => (
            in_phase(state, Phase::Finished),
            ActionView::Done { staged: staging_path_text(name) },
        ),
        _ => (in_phase(state, Phase::Failed), ActionView::Fail { error: FdmError::DownloadFailed }),
    }
}

impl Fetch {
    /// The state of a run that has not begun.
    pub fn new() -> (r: Fetch)
        ensures
            r == (Fetch { phase: Phase::Idle, downloaded: 0, total: 0 }),
    {
        Fetch { phase: Phase::Idle, downloaded: 0, total: 0 }
    }

    /// Whether the run is over.
    pub fn is_over(&self) -> (r: bool)
        ensures
            r == (self.phase == Phase::Finished || self.phase == Phase::Failed),
    {
        self.phase == Phase::Finished || self.phase == Phase::Failed
    }
}

/// The directory in which the package `name` is staged.
pub fn staging_path(name: &str) -> (r: String)
    ensures
        r@ == staging_path_text(name@),
{
    let mut out = String::from_str("fdm/pack/libs/");
    out.append(name);
    out
}

/// How many bytes are written after `len` more.
pub fn progress(downloaded: u64, len: u64, total: u64) -> (r: u64)
    ensures
        r == progress_after(downloaded, len, total),
{
    if downloaded >= total {
        total
    } else if len >= total - downloaded {
        total
    } else {
        downloaded + len
    }
}

impl Dependency {
    /// The directory that holds the download of the request until it
    /// becomes the cache entry.
    pub fn partial_path(&self, name: &str, host: PlatformArch) -> (r: String)
        ensures
            r@ == partial_path_text(name@, self@, host),
    {
        let mut out = self.cache_path(name, host);
        out.append(".partial");
        out
    }

    /// The file that the archive of the request is written to.
    pub fn archive_path(&self, name: &str, host: PlatformArch) -> (r: String)
        ensures
            r@ == archive_path_text(name@, self@, host),
    {
        let mut out = self.partial_path(name, host);
        out.append("/archive.tar.gz");
        out
    }

    /// One step of the run that stages the request for the package `name`:
    /// the next state and what is to be done, from the state and what
    /// happened. The registry is read only to find the download location
    /// after the cache was found to lack the entry.
    pub fn download_from_registry(
        &self,
        name: &str,
        registry: &Registry,
        state: Fetch,
        event: FetchEvent,
    ) -> (r: (Fetch, FetchAction))
        ensures
            (r.0, r.1@) == fetch_step(
                registry@.index,
                registry@.platform,
                name@,
                self@,
                state,
                event,
            ),
    {
        let host = registry.platform;
        let failed = Fetch { phase: Phase::Failed, downloaded: state.downloaded, total: state.total };
        match (state.phase, event) {
            (Phase::Idle, FetchEvent::Begin) => (
                Fetch { phase: Phase::Probing, downloaded: state.downloaded, total: state.total },
                FetchAction::Probe { directory: self.cache_path(name, host) },
            ),
            (Phase::Probing, FetchEvent::Cache { present, empty }) => {
                if present && !empty {
                    (
                        Fetch {
                            phase: Phase::Finished,
                            downloaded: state.downloaded,
                            total: state.total,
                        },
                        FetchAction::Done { staged: staging_path(name) },
                    )
                } else {
                    match registry.get(name, self) {
                        Ok(url) => (
                            Fetch {
                                phase: Phase::Requesting,
                                downloaded: state.downloaded,
                                total: state.total,
                            },
                            FetchAction::Download {
                                url,
                                directory: self.partial_path(name, host),
                                archive: self.archive_path(name, host),
                            },
                        ),
                        Err(_) => (failed, FetchAction::Fail { error: FdmError::DependencyNotFound }),
                    }
                }
            },
            (Phase::Requesting, FetchEvent::Response { status, length }) => {
                if 200 <= status && status < 300 {
                    let total: u64 = match length {
                        Some(n) => n,
                        None => 1,
                    };
                    (
                        Fetch { phase: Phase::Streaming, downloaded: 0, total },
                        FetchAction::Receive { position: 0 },
                    )
                } else {
                    (failed, FetchAction::Fail { error: FdmError::DownloadFailed })
                }
            },
            (Phase::Streaming, FetchEvent::Chunk { len }) => {
                let position = progress(state.downloaded, len, state.total);
                (
                    Fetch { phase: Phase::Streaming, downloaded: position, total: state.total },
                    FetchAction::Receive { position },
                )
            },
            (Phase::Streaming, FetchEvent::EndOfStream) => (
                Fetch { phase: Phase::Extracting, downloaded: state.downloaded, total: state.total },
                FetchAction::Unpack {
                    archive: self.archive_path(name, host),
                    target: staging_path(name),
                    strip: 1,
                },
            ),
            (Phase::Extracting, FetchEvent::Unpacked) => (
                Fetch { phase: Phase::Publishing, downloaded: state.downloaded, total: state.total },
                FetchAction::Publish {
                    from: self.partial_path(name, host),
                    to: self.cache_path(name, host),
                },
            ),
            (Phase::Extracting, FetchEvent::UnpackFailed) => (
                failed,
                FetchAction::Fail { error: FdmError::ExtractionFailed },
            ),
            (Phase::Publishing, FetchEvent::Published) => (
                Fetch { phase: Phase::Finished, downloaded: state.downloaded, total: state.total },
                FetchAction::Done { staged: staging_path(name) },
            ),
            _ => (failed, FetchAction::Fail { error: FdmError::DownloadFailed }),
        }
    }
}

/// The state in which a run ends, and what the machine answered on the
/// way, when the events come in the given order.
pub open spec fn run(
    index: IndexView,
    host: PlatformArch,
    name: Seq<char>,
    request: DependencyView,
    state: Fetch,
    events: Seq<FetchEvent>,
) -> (Fetch, Seq<ActionView>)
    decreases events.len(),
{
    if events.len() == 0 {
        (state, Seq::empty())
    } else {
        let step = fetch_step(index, host, name, request, state, events[0]);
        let rest = run(index, host, name, request, step.0, events.drop_first());
        (rest.0, seq![step.1] + rest.1)
    }
}

/// How many of the answers ask for a download.
pub open spec fn downloads(actions: Seq<ActionView>) -> nat
    decreases actions.len(),
{
    if actions.len() == 0 {
        0
    } else {
        downloads(actions.drop_first()) + if actions[0] is Download {
            1nat
        } else {
            0nat
        }
    }
}

/// A run that finds the cache entry there and not empty asks for nothing
/// from the network: it looks for the entry and stages the package.
pub proof fn lemma_cache_hit_fetches_nothing(
    index: IndexView,
    host: PlatformArch,
    name: Seq<char>,
    request: DependencyView,
)
    ensures
        run(
            index,
            host,
            name,
            request,
            Fetch { phase: Phase::Idle, downloaded: 0, total: 0 },
            seq![FetchEvent::Begin, FetchEvent::Cache { present: true, empty: false }],
        ) == (
            Fetch { phase: Phase::Finished, downloaded: 0, total: 0 },
            seq![
                ActionView::Probe { directory: cache_path_text(name, request, host) },
                ActionView::Done { staged: staging_path_text(name) },
            ],
        ),
        downloads(
            seq![
                ActionView::Probe { directory: cache_path_text(name, request, host) },
                ActionView::Done { staged: staging_path_text(name) },
            ],
        ) == 0,
{
    let start = Fetch { phase: Phase::Idle, downloaded: 0, total: 0 };
    let events = seq![FetchEvent::Begin, FetchEvent::Cache { present: true, empty: false }];
    let probing = Fetch { phase: Phase::Probing, downloaded: 0, total: 0 };
    let finished = Fetch { phase: Phase::Finished, downloaded: 0, total: 0 };
    let probe = ActionView::Probe { directory: cache_path_text(name, request, host) };
    let done = ActionView::Done { staged: staging_path_text(name) };
    assert(events.drop_first() =~= seq![FetchEvent::Cache { present: true, empty: false }]);
    assert(events.drop_first().drop_first() =~= Seq::<FetchEvent>::empty());
    assert(run(index, host, name, request, finished, Seq::empty()) == (
        finished,
        Seq::<ActionView>::empty(),
    ));
    assert(run(index, host, name, request, probing, events.drop_first()).1 =~= seq![done]);
    assert(run(index, host, name, request, start, events).1 =~= seq![probe, done]);
    let actions = seq![probe, done];
    assert(actions.drop_first() =~= seq![done]);
    assert(actions.drop_first().drop_first() =~= Seq::<ActionView>::empty());
    assert(downloads(seq![done]) == 0) by {
        reveal_with_fuel(downloads, 2);
        assert(seq![done].drop_first() =~= Seq::<ActionView>::empty());
    }
}

/// Whether a download can still be asked for from the phase.
pub open spec fn before_request(phase: Phase) -> bool {
    phase == Phase::Idle || phase == Phase::Probing
}

/// Whatever happens, a run asks for at most one download, and for none
/// once the cache was looked at.
pub proof fn lemma_run_downloads_once(
    index: IndexView,
    host: PlatformArch,
    name: Seq<char>,
    request: DependencyView,
    state: Fetch,
    events: Seq<FetchEvent>,
)
    ensures
        downloads(run(index, host, name, request, state, events).1) <= 1,
        !before_request(state.phase) ==> downloads(
            run(index, host, name, request, state, events).1,
        ) == 0,
    decreases events.len(),
{
    if events.len() > 0 {
        let step = fetch_step(index, host, name, request, state, events[0]);
        let rest = run(index, host, name, request, step.0, events.drop_first());
        lemma_run_downloads_once(index, host, name, request, step.0, events.drop_first());
        let actions = seq![step.1] + rest.1;
        assert(actions[0] == step.1);
        assert(actions.drop_first() =~= rest.1);
    }
}

/// Wherever a run stages the package, it is the directory that the name
/// of the package alone decides.
pub proof fn lemma_staged_path_is_fixed(
    index: IndexView,
    host: PlatformArch,
    name: Seq<char>,
    request: DependencyView,
    state: Fetch,
    event: FetchEvent,
)
    ensures
        fetch_step(index, host, name, request, state, event).1 matches ActionView::Done { staged }
            ==> staged == staging_path_text(name),
        fetch_step(index, host, name, request, state, event).1 matches ActionView::Publish {
            from,
            to,
        } ==> to == cache_path_text(name, request, host),
{
}

/// A run over events that come in two parts is the run over the first
/// part and then, from where that ended, the run over the second.
pub proof fn lemma_run_in_parts(
    index: IndexView,
    host: PlatformArch,
    name: Seq<char>,
    request: DependencyView,
    state: Fetch,
    first: Seq<FetchEvent>,
    second: Seq<FetchEvent>,
)
    ensures
        run(index, host, name, request, state, first + second).0 == run(
            index,
            host,
            name,
            request,
            run(index, host, name, request, state, first).0,
            second,
        ).0,
        run(index, host, name, request, state, first + second).1 == run(
            index,
            host,
            name,
            request,
            state,
            first,
        ).1 + run(
            index,
            host,
            name,
            request,
            run(index, host, name, request, state, first).0,
            second,
        ).1,
    decreases first.len(),
{
    if first.len() == 0 {
        assert(first + second =~= second);
        assert(Seq::<ActionView>::empty() + run(index, host, name, request, state, second).1
            =~= run(index, host, name, request, state, second).1);
    } else {
        let step = fetch_step(index, host, name, request, state, first[0]);
        let whole = first + second;
        assert(whole[0] == first[0]);
        assert(whole.drop_first() =~= first.drop_first() + second);
        lemma_run_in_parts(index, host, name, request, step.0, first.drop_first(), second);
        let head = run(index, host, name, request, step.0, first.drop_first());
        let tail = run(index, host, name, request, head.0, second);
        assert(seq![step.1] + (head.1 + tail.1) =~= (seq![step.1] + head.1) + tail.1);
    }
}

/// The events of a stream that brings the given parts, one after the
/// other.
pub open spec fn chunk_events(parts: Seq<u64>) -> Seq<FetchEvent> {
    Seq::new(parts.len(), |i: int| FetchEvent::Chunk { len: parts[i] })
}

/// While the body comes in, the run stays in the stream and asks for no
/// download.
pub proof fn lemma_stream_keeps_streaming(
    index: IndexView,
    host: PlatformArch,
    name: Seq<char>,
    request: DependencyView,
    state: Fetch,
    parts: Seq<u64>,
)
    requires
        state.phase == Phase::Streaming,
    ensures
        run(index, host, name, request, state, chunk_events(parts)).0.phase == Phase::Streaming,
        downloads(run(index, host, name, request, state, chunk_events(parts)).1) == 0,
    decreases parts.len(),
{
    let events = chunk_events(parts);
    if parts.len() > 0 {
        let step = fetch_step(index, host, name, request, state, events[0]);
        assert(events.drop_first() =~= chunk_events(parts.drop_first()));
        lemma_stream_keeps_streaming(index, host, name, request, step.0, parts.drop_first());
        let rest = run(index, host, name, request, step.0, events.drop_first());
        let actions = seq![step.1] + rest.1;
        assert(actions[0] == step.1);
        assert(actions.drop_first() =~= rest.1);
    }
}

/// The events of a run that finds no cache entry and then meets no
/// failure: the answer is one of success, the body comes in the given
/// parts, and the archive is unpacked and made the cache entry.
pub open spec fn events_of_download(
    present: bool,
    status: u16,
    length: Option<u64>,
    parts: Seq<u64>,
) -> Seq<FetchEvent> {
    seq![
        FetchEvent::Begin,
        FetchEvent::Cache { present, empty: true },
        FetchEvent::Response { status, length },
    ] + chunk_events(parts) + seq![
        FetchEvent::EndOfStream,
        FetchEvent::Unpacked,
        FetchEvent::Published,
    ]
}

/// A run that finds no cache entry for a request that the index has a
/// location for, and meets no failure, asks for exactly one download,
/// ends with the package staged, and has made the directory that the next
/// run looks for the cache entry of the request.
pub proof fn lemma_download_stages_and_publishes(
    index: IndexView,
    host: PlatformArch,
    name: Seq<char>,
    request: DependencyView,
    present: bool,
    status: u16,
    length: Option<u64>,
    parts: Seq<u64>,
)
    requires
        url_of_request(index, name, request, host) is Some,
        status_is_success(status),
    ensures
        ({
            let r = run(
                index,
                host,
                name,
                request,
                Fetch { phase: Phase::Idle, downloaded: 0, total: 0 },
                events_of_download(present, status, length, parts),
            );
            &&& r.0.phase == Phase::Finished
            &&& downloads(r.1) == 1
            &&& r.1.len() == parts.len() + 6
            &&& r.1[0] == (ActionView::Probe { directory: cache_path_text(name, request, host) })
            &&& r.1[r.1.len() - 2] == (ActionView::Publish {
                from: partial_path_text(name, request, host),
                to: cache_path_text(name, request, host),
            })
            &&& r.1[r.1.len() - 1] == (ActionView::Done { staged: staging_path_text(name) })
        }),
{
    let start = Fetch { phase: Phase::Idle, downloaded: 0, total: 0 };
    let opening = seq![
        FetchEvent::Begin,
        FetchEvent::Cache { present, empty: true },
        FetchEvent::Response { status, length },
    ];
    let body = chunk_events(parts);
    let closing = seq![FetchEvent::EndOfStream, FetchEvent::Unpacked, FetchEvent::Published];
    // The opening: the cache is looked at, the archive is asked for, the
    // answer comes.
    reveal_with_fuel(run, 4);
    reveal_with_fuel(downloads, 4);
    let s1 = fetch_step(index, host, name, request, start, opening[0]);
    let s2 = fetch_step(index, host, name, request, s1.0, opening[1]);
    let s3 = fetch_step(index, host, name, request, s2.0, opening[2]);
    assert(opening.drop_first() =~= seq![opening[1], opening[2]]);
    assert(opening.drop_first().drop_first() =~= seq![opening[2]]);
    assert(opening.drop_first().drop_first().drop_first() =~= Seq::<FetchEvent>::empty());
    let opened = run(index, host, name, request, start, opening);
    assert(opened.0 == s3.0);
    assert(opened.1 =~= seq![s1.1, s2.1, s3.1]);
    assert(opened.1.drop_first() =~= seq![s2.1, s3.1]);
    assert(opened.1.drop_first().drop_first() =~= seq![s3.1]);
    assert(opened.1.drop_first().drop_first().drop_first() =~= Seq::<ActionView>::empty());
    assert(downloads(opened.1) == 1);
    // The body.
    lemma_stream_keeps_streaming(index, host, name, request, opened.0, parts);
    let streamed = run(index, host, name, request, opened.0, body);
    lemma_run_actions(index, host, name, request, opened.0, body);
    // The closing: the archive is unpacked and made the cache entry.
    let c1 = fetch_step(index, host, name, request, streamed.0, closing[0]);
    let c2 = fetch_step(index, host, name, request, c1.0, closing[1]);
    let c3 = fetch_step(index, host, name, request, c2.0, closing[2]);
    assert(closing.drop_first() =~= seq![closing[1], closing[2]]);
    assert(closing.drop_first().drop_first() =~= seq![closing[2]]);
    assert(closing.drop_first().drop_first().drop_first() =~= Seq::<FetchEvent>::empty());
    let closed = run(index, host, name, request, streamed.0, closing);
    assert(closed.0 == c3.0);
    assert(closed.1 =~= seq![c1.1, c2.1, c3.1]);
    assert(closed.1.drop_first() =~= seq![c2.1, c3.1]);
    assert(closed.1.drop_first().drop_first() =~= seq![c3.1]);
    assert(closed.1.drop_first().drop_first().drop_first() =~= Seq::<ActionView>::empty());
    assert(downloads(closed.1) == 0);
    // All three in a row.
    lemma_run_in_parts(index, host, name, request, start, opening, body);
    lemma_run_in_parts(index, host, name, request, start, opening + body, closing);
    lemma_downloads_in_parts(opened.1, streamed.1);
    lemma_downloads_in_parts(opened.1 + streamed.1, closed.1);
    assert(events_of_download(present, status, length, parts) =~= opening + body + closing);
}

/// A run answers each event once.
pub proof fn lemma_run_actions(
    index: IndexView,
    host: PlatformArch,
    name: Seq<char>,
    request: DependencyView,
    state: Fetch,
    events: Seq<FetchEvent>,
)
    ensures
        run(index, host, name, request, state, events).1.len() == events.len(),
    decreases events.len(),
{
    if events.len() > 0 {
        let step = fetch_step(index, host, name, request, state, events[0]);
        lemma_run_actions(index, host, name, request, step.0, events.drop_first());
    }
}

/// The downloads among answers that come in two parts are those of the
/// first part and those of the second.
pub proof fn lemma_downloads_in_parts(first: Seq<ActionView>, second: Seq<ActionView>)
    ensures
        downloads(first + second) == downloads(first) + downloads(second),
    decreases first.len(),
{
    if first.len() == 0 {
        assert(first + second =~= second);
    } else {
        let whole = first + second;
        assert(whole[0] == first[0]);
        assert(whole.drop_first() =~= first.drop_first() + second);
        lemma_downloads_in_parts(first.drop_first(), second);
    }
}

} // verus!
