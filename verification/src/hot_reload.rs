//! Pending-reload hand-off between the watcher and the render loop.
//!
//! `ReloadQueue` is a bounded FIFO of `ShaderReloadRequest`s. When a
//! push would exceed the capacity, the oldest request is dropped, never
//! the newest: the queue prefers freshness of shader state over
//! completeness of history. One party must push and one must drain; the
//! manager owns the queue, and a caller that shares it across threads
//! must guard it with a lock of its own.

use vstd::prelude::*;

use crate::config::hot_reload;
use crate::error::AppError;
use crate::error::AppResult;
use crate::error::VulkanError;
use crate::pipeline::PipelineState;
use crate::shader_compiler::sat_inc;
use crate::shader_watcher::FileObservation;
use crate::shader_watcher::HotReloadConfig;
use crate::shader_watcher::ShaderWatcher;
use crate::shader_watcher::spec_observations;
use crate::shader_watcher::spec_process;
use crate::shader_watcher::spec_record;
use crate::shader_watcher::spec_stage_reload_allowed;
use crate::stage::ShaderStage;
use crate::stage::spec_extension_of;
use crate::stage::spec_stage_of_extension;
use crate::stage::stage_of_extension;
use crate::stage::extension_of;

verus! {

/// A single pending hot-reload job, classified by stage.
#[derive(Debug)]
pub struct ShaderReloadRequest {
    /// Path to the shader file to reload.
    pub shader_path: String,
    /// The stage the file's extension names.
    pub shader_kind: ShaderStage,
}

/// A request reduced to its plain values, for specifications.
pub open spec fn spec_request(r: &ShaderReloadRequest) -> (Seq<char>, ShaderStage) {
    (r.shader_path@, r.shader_kind)
}

/// What one bounded push leaves in the queue: the new request appended,
/// and the oldest request dropped if the queue was full.
pub open spec fn spec_push_bounded(
    s: Seq<(Seq<char>, ShaderStage)>,
    x: (Seq<char>, ShaderStage),
    cap: nat,
) -> Seq<(Seq<char>, ShaderStage)> {
    if s.len() < cap {
        s.push(x)
    } else {
        s.push(x).skip(1)
    }
}

/// The queue contents after pushing every element of `xs` in order.
pub open spec fn spec_push_all(
    s: Seq<(Seq<char>, ShaderStage)>,
    xs: Seq<(Seq<char>, ShaderStage)>,
    cap: nat,
) -> Seq<(Seq<char>, ShaderStage)>
    decreases xs.len(),
{
    if xs.len() == 0 {
        s
    } else {
        spec_push_all(spec_push_bounded(s, xs[0], cap), xs.drop_first(), cap)
    }
}

/// Law: a sequence of bounded pushes keeps exactly the newest requests.
/// Starting from a queue within capacity, pushing `xs` leaves the last
/// `cap` elements of the combined history, or all of them if they fit.
pub proof fn lemma_push_all_keeps_newest(
    s: Seq<(Seq<char>, ShaderStage)>,
    xs: Seq<(Seq<char>, ShaderStage)>,
    cap: nat,
)
    requires
        cap >= 1,
        s.len() <= cap,
    ensures
        spec_push_all(s, xs, cap) == if s.len() + xs.len() <= cap {
            s + xs
        } else {
            (s + xs).skip(s.len() + xs.len() - cap)
        },
    decreases xs.len(),
{
    if xs.len() == 0 {
        assert(s + xs =~= s);
    } else {
        let x = xs[0];
        let rest = xs.drop_first();
        let s1 = spec_push_bounded(s, x, cap);
        lemma_push_all_keeps_newest(s1, rest, cap);
        if s.len() < cap {
            assert(s1 =~= s.push(x));
            assert(s1 + rest =~= s + xs);
        } else {
            assert(s1 =~= s.push(x).skip(1));
            assert(s1 + rest =~= (s + xs).skip(1));
            if s1.len() + rest.len() <= cap {
                assert(spec_push_all(s, xs, cap) == (s + xs).skip(1));
                assert(s.len() + xs.len() - cap == 1);
            } else {
                assert((s1 + rest).skip(s1.len() + rest.len() - cap) =~= (s + xs).skip(
                    s.len() + xs.len() - cap,
                ));
            }
        }
    }
}

/// Bounded FIFO of pending reload requests.
pub struct ReloadQueue {
    items: Vec<ShaderReloadRequest>,
    capacity: usize,
}

impl ReloadQueue {
    #[verifier::type_invariant]
    spec fn wf(&self) -> bool {
        self.items@.len() <= self.capacity && self.capacity >= 1
    }

    /// The queued requests, oldest first, as plain values.
    pub closed spec fn requests(&self) -> Seq<(Seq<char>, ShaderStage)> {
        self.items@.map_values(|r: ShaderReloadRequest| spec_request(&r))
    }

    /// The queue's fixed capacity.
    pub closed spec fn spec_capacity(&self) -> nat {
        self.capacity as nat
    }

    /// Create an empty queue with the given capacity; a capacity of
    /// zero is raised to one so a push can always retain its request.
    pub fn new(capacity: usize) -> (r: ReloadQueue)
        ensures
            r.requests() == Seq::<(Seq<char>, ShaderStage)>::empty(),
            r.spec_capacity() == if capacity >= 1 {
                capacity as nat
            } else {
                1nat
            },
    {
        let cap = if capacity >= 1 {
            capacity
        } else {
            1
        };
        let q = ReloadQueue { items: Vec::new(), capacity: cap };
        proof {
            assert(q.items@.map_values(|r: ShaderReloadRequest| spec_request(&r)) =~= Seq::<
                (Seq<char>, ShaderStage),
            >::empty());
        }
        q
    }

    /// Number of queued requests.
    pub fn len(&self) -> (r: usize)
        ensures
            r == self.requests().len(),
    {
        self.items.len()
    }

    /// Append a request at the tail; if the queue is full, the oldest
    /// request is evicted first, so the newest is always retained.
    pub fn push(&mut self, request: ShaderReloadRequest) -> (dropped: bool)
        ensures
            final(self).requests() == spec_push_bounded(
                old(self).requests(),
                (request.shader_path@, request.shader_kind),
                old(self).spec_capacity(),
            ),
            final(self).spec_capacity() == old(self).spec_capacity(),
            dropped == (old(self).requests().len() == old(self).spec_capacity()),
    {
        proof {
            use_type_invariant(&*self);
        }
        let ghost old_items = self.items@;
        let mut items: Vec<ShaderReloadRequest> = Vec::new();
        std::mem::swap(&mut items, &mut self.items);
        let mut dropped = false;
        if items.len() == self.capacity {
            let _oldest = items.remove(0);
            dropped = true;
        }
        items.push(request);
        proof {
            if old_items.len() == self.capacity {
                assert(items@ =~= old_items.skip(1).push(request));
                assert(items@.map_values(|r: ShaderReloadRequest| spec_request(&r)) =~= old_items
                    .map_values(|r: ShaderReloadRequest| spec_request(&r)).push(
                    (request.shader_path@, request.shader_kind),
                ).skip(1));
            } else {
                assert(items@ =~= old_items.push(request));
                assert(items@.map_values(|r: ShaderReloadRequest| spec_request(&r)) =~= old_items
                    .map_values(|r: ShaderReloadRequest| spec_request(&r)).push(
                    (request.shader_path@, request.shader_kind),
                ));
            }
        }
        std::mem::swap(&mut items, &mut self.items);
        dropped
    }

    /// Atomically take every queued request, oldest first, leaving the
    /// queue empty.
    pub fn drain(&mut self) -> (r: Vec<ShaderReloadRequest>)
        ensures
            r@.map_values(|q: ShaderReloadRequest| spec_request(&q)) == old(self).requests(),
            final(self).requests() == Seq::<(Seq<char>, ShaderStage)>::empty(),
            final(self).spec_capacity() == old(self).spec_capacity(),
    {
        proof {
            use_type_invariant(&*self);
        }
        let mut items: Vec<ShaderReloadRequest> = Vec::new();
        std::mem::swap(&mut items, &mut self.items);
        proof {
            assert(self.items@.map_values(|r: ShaderReloadRequest| spec_request(&r)) =~= Seq::<
                (Seq<char>, ShaderStage),
            >::empty());
        }
        items
    }
}


proof fn lemma_push_all_snoc(
    s: Seq<(Seq<char>, ShaderStage)>,
    xs: Seq<(Seq<char>, ShaderStage)>,
    x: (Seq<char>, ShaderStage),
    cap: nat,
)
    ensures
        spec_push_all(s, xs.push(x), cap) == spec_push_bounded(spec_push_all(s, xs, cap), x, cap),
    decreases xs.len(),
{
    if xs.len() == 0 {
        assert(xs.push(x)[0] == x);
        assert(xs.push(x).drop_first() =~= Seq::<(Seq<char>, ShaderStage)>::empty());
        assert(spec_push_all(s, xs, cap) == s);
        assert(spec_push_all(s, xs.push(x), cap) == spec_push_all(
            spec_push_bounded(s, x, cap),
            xs.push(x).drop_first(),
            cap,
        ));
        assert(spec_push_all(spec_push_bounded(s, x, cap), xs.push(x).drop_first(), cap)
            == spec_push_bounded(s, x, cap));
    } else {
        assert(xs.push(x)[0] == xs[0]);
        assert(xs.push(x).drop_first() =~= xs.drop_first().push(x));
        lemma_push_all_snoc(spec_push_bounded(s, xs[0], cap), xs.drop_first(), x, cap);
        assert(spec_push_all(s, xs.push(x), cap) == spec_push_all(
            spec_push_bounded(s, xs[0], cap),
            xs.drop_first().push(x),
            cap,
        ));
        assert(spec_push_all(s, xs, cap) == spec_push_all(
            spec_push_bounded(s, xs[0], cap),
            xs.drop_first(),
            cap,
        ));
    }
}

/// What one drained request's compilation came to: the request's path
/// and stage, and the fresh binary if the compile succeeded.
pub struct ReloadOutcome {
    /// Path of the shader the request named.
    pub shader_path: String,
    /// The stage the request named.
    pub shader_kind: ShaderStage,
    /// The recompiled words, or nothing if this request failed.
    pub compiled: Option<Vec<u32>>,
}

/// Outcomes reduced to plain values.
pub open spec fn spec_outcomes(v: Seq<ReloadOutcome>) -> Seq<
    (Seq<char>, ShaderStage, Option<Seq<u32>>),
> {
    v.map_values(
        |o: ReloadOutcome|
            (
                o.shader_path@,
                o.shader_kind,
                match o.compiled {
                    Some(w) => Some(w@),
                    None => None,
                },
            ),
    )
}

/// Whether any outcome of a batch carries a fresh binary.
pub open spec fn spec_any_success(outs: Seq<(Seq<char>, ShaderStage, Option<Seq<u32>>)>) -> bool {
    exists|i: int| 0 <= i < outs.len() && outs[i].2 is Some
}

/// The words a stage holds after a batch is applied: the last
/// successful outcome for that stage wins, and a stage no successful
/// outcome names keeps the words it had. A failed outcome changes
/// nothing, so one bad shader never disturbs the others.
pub open spec fn spec_applied_stage(
    p: &PipelineState,
    outs: Seq<(Seq<char>, ShaderStage, Option<Seq<u32>>)>,
    st: ShaderStage,
) -> Option<Seq<u32>>
    decreases outs.len(),
{
    if outs.len() == 0 {
        p.spec_stage(st)
    } else {
        let o = outs.last();
        match o.2 {
            Some(w) => if o.1 == st {
                Some(w)
            } else {
                spec_applied_stage(p, outs.drop_last(), st)
            },
            None => spec_applied_stage(p, outs.drop_last(), st),
        }
    }
}

/// Coordinates shader watching, the pending queue, and replacement of
/// the live pipeline at frame-safe points.
pub struct HotReloadManager {
    config: HotReloadConfig,
    watcher: Option<ShaderWatcher>,
    queue: ReloadQueue,
    pipeline: Option<PipelineState>,
    reloads_occurred: bool,
}

impl HotReloadManager {
    /// Whether hot reload is enabled in the manager's configuration.
    pub closed spec fn spec_enabled(&self) -> bool {
        self.config.enabled
    }

    /// The watcher, once `initialize` has created it.
    pub closed spec fn watcher_view(&self) -> Option<ShaderWatcher> {
        self.watcher
    }

    /// The queued requests, oldest first.
    pub closed spec fn pending(&self) -> Seq<(Seq<char>, ShaderStage)> {
        self.queue.requests()
    }

    /// The pending queue's capacity.
    pub closed spec fn pending_capacity(&self) -> nat {
        self.queue.spec_capacity()
    }

    /// The live pipeline state, once `initialize` has bound one.
    pub closed spec fn spec_pipeline(&self) -> Option<PipelineState> {
        self.pipeline
    }

    /// Whether a processing pass has run since the flag was last read.
    pub closed spec fn spec_reloads_occurred(&self) -> bool {
        self.reloads_occurred
    }

    /// Create a manager with an empty queue of the configured pending
    /// capacity, no watcher and no pipeline.
    pub fn new(config: HotReloadConfig) -> (r: HotReloadManager)
        ensures
            r.spec_enabled() == config.enabled,
            r.watcher_view() is None,
            r.pending() == Seq::<(Seq<char>, ShaderStage)>::empty(),
            r.pending_capacity() == hot_reload::MAX_PENDING_RELOADS as nat,
            r.spec_pipeline() is None,
            !r.spec_reloads_occurred(),
    {
        HotReloadManager {
            config,
            watcher: None,
            queue: ReloadQueue::new(hot_reload::MAX_PENDING_RELOADS),
            pipeline: None,
            reloads_occurred: false,
        }
    }

    /// Bind the manager to the pipeline state it is responsible for
    /// replacing, and create the watcher when hot reload is enabled.
    /// The caller registers the watched directory with the operating
    /// system and seeds the watcher through `refresh_watched_files`.
    pub fn initialize(&mut self, pipeline: PipelineState) -> (r: AppResult<()>)
        ensures
            r is Ok,
            final(self).spec_pipeline() == Some(pipeline),
            final(self).spec_enabled() == old(self).spec_enabled(),
            final(self).pending() == old(self).pending(),
            final(self).pending_capacity() == old(self).pending_capacity(),
            final(self).spec_reloads_occurred() == old(self).spec_reloads_occurred(),
            old(self).spec_enabled() ==> (final(self).watcher_view() matches Some(w)
                && w.spec_enabled() && w.times() == Map::<Seq<char>, u64>::empty()),
            !old(self).spec_enabled() ==> final(self).watcher_view() == old(self).watcher_view(),
    {
        self.pipeline = Some(pipeline);
        if self.config.enabled {
            let watcher = ShaderWatcher::new(self.config.duplicate());
            self.watcher = Some(watcher);
        }
        Ok(())
    }

    /// Seed or refresh the watcher's file-time table from a directory
    /// scan, so files already on disk are not reported as changed.
    pub fn refresh_watched_files(&mut self, files: &Vec<FileObservation>)
        ensures
            old(self).watcher_view() is None ==> *final(self) == *old(self),
            old(self).watcher_view() matches Some(w) ==> ({
                &&& final(self).watcher_view() matches Some(w2) && w2.times() == spec_record(
                    w.times(),
                    spec_observations(files@),
                    w.spec_watch_extensions(),
                ) && w2.spec_enabled() == w.spec_enabled() && w2.spec_debounce_ms()
                    == w.spec_debounce_ms() && w2.spec_watch_extensions()
                    == w.spec_watch_extensions()
                &&& final(self).pending() == old(self).pending()
                &&& final(self).pending_capacity() == old(self).pending_capacity()
                &&& final(self).spec_pipeline() == old(self).spec_pipeline()
                &&& final(self).spec_enabled() == old(self).spec_enabled()
                &&& final(self).spec_reloads_occurred() == old(self).spec_reloads_occurred()
            }),
    {
        match &mut self.watcher {
            Some(w) => {
                w.refresh_file_times(files);
            },
            None => {},
        }
    }

    /// Hand one raw file-system event to the watcher and queue every
    /// request that survives debouncing and classification. Without a
    /// watcher, or with the watcher disabled, nothing is queued.
    pub fn handle_file_event(&mut self, observations: &Vec<FileObservation>)
        ensures
            old(self).watcher_view() is None ==> *final(self) == *old(self),
            old(self).watcher_view() matches Some(w) ==> ({
                &&& final(self).spec_pipeline() == old(self).spec_pipeline()
                &&& final(self).spec_enabled() == old(self).spec_enabled()
                &&& final(self).spec_reloads_occurred() == old(self).spec_reloads_occurred()
                &&& final(self).pending_capacity() == old(self).pending_capacity()
                &&& if w.spec_enabled() && !w.spec_processing() {
                    let outcome = spec_process(
                        w.times(),
                        spec_observations(observations@),
                        w.spec_watch_extensions(),
                        w.spec_debounce_ms(),
                    );
                    &&& final(self).watcher_view() matches Some(w2) && w2.times() == outcome.0
                        && w2.spec_enabled() == w.spec_enabled() && w2.spec_debounce_ms()
                        == w.spec_debounce_ms() && w2.spec_watch_extensions()
                        == w.spec_watch_extensions()
                    &&& final(self).pending() == spec_push_all(
                        old(self).pending(),
                        outcome.1,
                        old(self).pending_capacity(),
                    )
                } else {
                    final(self).watcher_view() == old(self).watcher_view() && final(self).pending()
                        == old(self).pending()
                }
            }),
    {
        let requests = match &mut self.watcher {
            Some(w) => w.handle_file_event(observations),
            None => {
                return ;
            },
        };
        let ghost q0 = self.queue.requests();
        let ghost reqs_view = requests@.map_values(|q: ShaderReloadRequest| spec_request(&q));
        let ghost cap = self.queue.spec_capacity();
        let ghost w_after = self.watcher_view();
        let mut i: usize = 0;
        let n = requests.len();
        while i < n
            invariant
                n == requests@.len(),
                0 <= i <= n,
                reqs_view == requests@.map_values(|q: ShaderReloadRequest| spec_request(&q)),
                cap == self.queue.spec_capacity(),
                self.queue.requests() == spec_push_all(q0, reqs_view.take(i as int), cap),
                self.watcher_view() == w_after,
                self.spec_pipeline() == old(self).spec_pipeline(),
                self.spec_enabled() == old(self).spec_enabled(),
                self.spec_reloads_occurred() == old(self).spec_reloads_occurred(),
            decreases n - i,
        {
            proof {
                lemma_push_all_snoc(q0, reqs_view.take(i as int), reqs_view[i as int], cap);
                assert(reqs_view.take(i + 1) =~= reqs_view.take(i as int).push(
                    reqs_view[i as int],
                ));
            }
            let request = ShaderReloadRequest {
                shader_path: requests[i].shader_path.clone(),
                shader_kind: requests[i].shader_kind,
            };
            self.queue.push(request);
            i += 1;
        }
        proof {
            assert(reqs_view.take(n as int) =~= reqs_view);
        }
    }

    /// Queue a manual reload for one shader path, classified by its
    /// extension exactly as the automatic path classifies it. Manual
    /// reloads work whether or not watching is enabled. A path without
    /// an extension or with an unrecognised one is rejected and queues
    /// nothing; a stage whose reload is disabled queues nothing.
    pub fn reload_shader(&mut self, shader_path: &str) -> (r: AppResult<()>)
        ensures
            final(self).spec_pipeline() == old(self).spec_pipeline(),
            final(self).spec_enabled() == old(self).spec_enabled(),
            final(self).spec_reloads_occurred() == old(self).spec_reloads_occurred(),
            final(self).watcher_view() == old(self).watcher_view(),
            final(self).pending_capacity() == old(self).pending_capacity(),
            match spec_extension_of(shader_path@) {
                None => r matches Err(AppError::Vulkan(VulkanError::ShaderCompilation(m))) && m@
                    == "No file extension found for shader: "@ + shader_path@
                    && final(self).pending() == old(self).pending(),
                Some(ext) => match spec_stage_of_extension(ext) {
                    Some(st) => if spec_stage_reload_allowed(st) {
                        r is Ok && final(self).pending() == spec_push_bounded(
                            old(self).pending(),
                            (shader_path@, st),
                            old(self).pending_capacity(),
                        )
                    } else {
                        r is Ok && final(self).pending() == old(self).pending()
                    },
                    None => r matches Err(AppError::Vulkan(VulkanError::ShaderCompilation(m)))
                        && m@ == "Unsupported shader extension: "@ + ext && final(self).pending()
                        == old(self).pending(),
                },
            },
    {
        match extension_of(shader_path) {
            None => Err(
                AppError::Vulkan(
                    VulkanError::ShaderCompilation(
                        crate::error::concat2("No file extension found for shader: ", shader_path),
                    ),
                ),
            ),
            Some(ext) => match stage_of_extension(ext.as_str()) {
                Some(st) => {
                    if crate::shader_watcher::stage_reload_allowed(st) {
                        let request = ShaderReloadRequest {
                            shader_path: shader_path.to_owned(),
                            shader_kind: st,
                        };
                        self.queue.push(request);
                    }
                    Ok(())
                },
                None => Err(
                    AppError::Vulkan(
                        VulkanError::ShaderCompilation(
                            crate::error::concat2("Unsupported shader extension: ", ext.as_str()),
                        ),
                    ),
                ),
            },
        }
    }

    /// Atomically take every queued request, oldest first, for the
    /// caller to recompile; the queue is left empty.
    pub fn drain_pending_reloads(&mut self) -> (r: Vec<ShaderReloadRequest>)
        ensures
            r@.map_values(|q: ShaderReloadRequest| spec_request(&q)) == old(self).pending(),
            final(self).pending() == Seq::<(Seq<char>, ShaderStage)>::empty(),
            final(self).pending_capacity() == old(self).pending_capacity(),
            final(self).spec_pipeline() == old(self).spec_pipeline(),
            final(self).spec_enabled() == old(self).spec_enabled(),
            final(self).spec_reloads_occurred() == old(self).spec_reloads_occurred(),
            final(self).watcher_view() == old(self).watcher_view(),
    {
        self.queue.drain()
    }

    /// Apply one drained batch at a frame-safe point. Every successful
    /// outcome replaces its stage's words; failed outcomes are skipped,
    /// so one broken shader never blocks the others, and the previous
    /// binary of its stage stays in use. If at least one stage was
    /// replaced, a pipeline with the next generation is swapped in as a
    /// whole and `true` comes back, telling the caller to re-record
    /// command buffers; otherwise the pipeline is exactly the old one.
    pub fn process_pending_reloads(&mut self, outcomes: &Vec<ReloadOutcome>) -> (r: AppResult<
        bool,
    >)
        ensures
            final(self).pending() == old(self).pending(),
            final(self).pending_capacity() == old(self).pending_capacity(),
            final(self).spec_enabled() == old(self).spec_enabled(),
            final(self).watcher_view() == old(self).watcher_view(),
            outcomes@.len() == 0 ==> r == Ok::<bool, AppError>(false)
                && final(self).spec_pipeline() == old(self).spec_pipeline()
                && final(self).spec_reloads_occurred() == old(self).spec_reloads_occurred(),
            outcomes@.len() > 0 ==> ({
                let outs = spec_outcomes(outcomes@);
                &&& final(self).spec_reloads_occurred()
                &&& match old(self).spec_pipeline() {
                    None => r == Ok::<bool, AppError>(false) && final(self).spec_pipeline()
                        is None,
                    Some(p) => if spec_any_success(outs) {
                        &&& r == Ok::<bool, AppError>(true)
                        &&& final(self).spec_pipeline() matches Some(p2) && p2.generation
                            == sat_inc(p.generation) && (forall|st: ShaderStage| #[trigger]
                            p2.spec_stage(st) == spec_applied_stage(&p, outs, st))
                    } else {
                        r == Ok::<bool, AppError>(false) && final(self).spec_pipeline() == Some(p)
                    },
                }
            }),
    {
        if outcomes.len() == 0 {
            return Ok(false);
        }
        self.reloads_occurred = true;
        let mut taken: Option<PipelineState> = None;
        std::mem::swap(&mut taken, &mut self.pipeline);
        match taken {
            None => Ok(false),
            Some(mut p) => {
                let ghost p0 = p;
                let ghost outs = spec_outcomes(outcomes@);
                let mut success = false;
                let mut i: usize = 0;
                let n = outcomes.len();
                while i < n
                    invariant
                        n == outcomes@.len(),
                        outs == spec_outcomes(outcomes@),
                        0 <= i <= n,
                        p.generation == p0.generation,
                        forall|st: ShaderStage| #[trigger]
                            p.spec_stage(st) == spec_applied_stage(
                                &p0,
                                outs.take(i as int),
                                st,
                            ),
                        success == spec_any_success(outs.take(i as int)),
                        !success ==> p == p0,
                    decreases n - i,
                {
                    proof {
                        assert(outs.take(i + 1).drop_last() =~= outs.take(i as int));
                        assert(outs.take(i + 1).last() == outs[i as int]);
                    }
                    match &outcomes[i].compiled {
                        Some(words) => {
                            let mut copy: Vec<u32> = Vec::new();
                            let mut j: usize = 0;
                            let m = words.len();
                            while j < m
                                invariant
                                    m == words@.len(),
                                    0 <= j <= m,
                                    copy@ == words@.take(j as int),
                                decreases m - j,
                            {
                                copy.push(words[j]);
                                proof {
                                    assert(words@.take(j + 1) =~= words@.take(j as int).push(
                                        words@[j as int],
                                    ));
                                }
                                j += 1;
                            }
                            proof {
                                assert(words@.take(m as int) =~= words@);
                            }
                            p.set_stage(outcomes[i].shader_kind, copy);
                            success = true;
                            proof {
                                assert(outs[i as int].2 is Some);
                                assert(spec_any_success(outs.take(i + 1))) by {
                                    assert(outs.take(i + 1)[i as int].2 is Some);
                                }
                            }
                        },
                        None => {
                            proof {
                                if spec_any_success(outs.take(i + 1)) {
                                    let k = choose|k: int|
                                        0 <= k < outs.take(i + 1).len() && #[trigger] outs.take(
                                            i + 1,
                                        )[k].2 is Some;
                                    assert(k < i + 1);
                                    if k < i {
                                        assert(outs.take(i as int)[k].2 is Some);
                                    }
                                }
                            }
                        },
                    }
                    i += 1;
                }
                proof {
                    assert(outs.take(n as int) =~= outs);
                }
                if success {
                    let ghost applied = p;
                    p.generation = if p.generation < u64::MAX {
                        p.generation + 1
                    } else {
                        p.generation
                    };
                    proof {
                        assert forall|st: ShaderStage| #[trigger] p.spec_stage(st)
                            == spec_applied_stage(&p0, outs, st) by {
                            assert(applied.spec_stage(st) == spec_applied_stage(
                                &p0,
                                outs.take(n as int),
                                st,
                            ));
                            assert(p.spec_stage(st) == applied.spec_stage(st));
                        }
                    }
                    self.pipeline = Some(p);
                    Ok(true)
                } else {
                    self.pipeline = Some(p);
                    Ok(false)
                }
            },
        }
    }

    /// Read and clear the flag that says a processing pass has run.
    pub fn check_and_clear_reloads_occurred(&mut self) -> (r: bool)
        ensures
            r == old(self).spec_reloads_occurred(),
            !final(self).spec_reloads_occurred(),
            final(self).pending() == old(self).pending(),
            final(self).pending_capacity() == old(self).pending_capacity(),
            final(self).spec_pipeline() == old(self).spec_pipeline(),
            final(self).spec_enabled() == old(self).spec_enabled(),
            final(self).watcher_view() == old(self).watcher_view(),
    {
        let occurred = self.reloads_occurred;
        self.reloads_occurred = false;
        occurred
    }

    /// Number of queued reload requests.
    pub fn pending_reload_count(&self) -> (r: usize)
        ensures
            r == self.pending().len(),
    {
        self.queue.len()
    }

    /// Enable or disable automatic reload detection. Disabling leaves
    /// queued requests in place: they are still processed on the next
    /// pass, only new automatic detections stop.
    pub fn set_enabled(&mut self, enabled: bool) -> (r: AppResult<()>)
        ensures
            r is Ok,
            final(self).spec_enabled() == enabled,
            final(self).pending() == old(self).pending(),
            final(self).pending_capacity() == old(self).pending_capacity(),
            final(self).spec_pipeline() == old(self).spec_pipeline(),
            final(self).spec_reloads_occurred() == old(self).spec_reloads_occurred(),
            old(self).watcher_view() is None ==> final(self).watcher_view() is None,
            old(self).watcher_view() matches Some(w) ==> (final(self).watcher_view()
                matches Some(w2) && w2.spec_enabled() == enabled && w2.times() == w.times()
                && w2.spec_debounce_ms() == w.spec_debounce_ms() && w2.spec_watch_extensions()
                == w.spec_watch_extensions()),
    {
        self.config.enabled = enabled;
        match &mut self.watcher {
            Some(w) => {
                w.set_enabled(enabled);
            },
            None => {},
        }
        Ok(())
    }

    /// Whether hot reload is enabled.
    pub fn is_enabled(&self) -> (r: bool)
        ensures
            r == self.spec_enabled(),
    {
        self.config.enabled
    }

    /// Number of watched files and whether watching is active; without
    /// a watcher, zero files and inactive.
    pub fn get_stats(&self) -> (r: (usize, bool))
        ensures
            match self.watcher_view() {
                Some(w) => r.0 == w.times().dom().len() && r.1 == w.spec_enabled(),
                None => r == (0usize, false),
            },
    {
        match &self.watcher {
            Some(w) => w.get_stats(),
            None => (0, false),
        }
    }

    /// The live pipeline state, for binding during command recording.
    /// The reference is to the complete current state: the manager
    /// replaces it only wholesale, at `process_pending_reloads`.
    pub fn current_pipeline(&self) -> (r: Option<&PipelineState>)
        ensures
            match r {
                Some(p) => self.spec_pipeline() == Some(*p),
                None => self.spec_pipeline() is None,
            },
    {
        match &self.pipeline {
            Some(p) => Some(p),
            None => None,
        }
    }
}

} // verus!
