//! File-change watching for shader hot reload.
//!
//! The watcher holds the debounce state: a table from watched file path
//! to the last recorded modification time. The subscription to the
//! operating system's notification facility lives outside the library;
//! each raw event is handed in as a list of `FileObservation`s, one per
//! path, carrying the modification time the caller read for it. The
//! watcher filters the paths by extension, debounces them against the
//! table, classifies the survivors by stage, and returns the reload
//! requests they produce.

use vstd::prelude::*;

use crate::config::hot_reload;
use crate::error::AppError;
use crate::error::AppResult;
use crate::error::VulkanError;
use crate::hot_reload::ShaderReloadRequest;
use crate::stage::ShaderStage;
use crate::stage::extension_of;
use crate::stage::spec_extension_of;
use crate::stage::spec_stage_of_extension;
use crate::stage::stage_of_extension;
use crate::stage::str_eq;

verus! {

/// Hot reload configuration.
#[derive(Debug)]
pub struct HotReloadConfig {
    /// Enable or disable hot reload.
    pub enabled: bool,
    /// Shader directory to watch.
    pub shader_dir: String,
    /// Debounce time for file changes, in milliseconds.
    pub debounce_ms: u64,
    /// File extensions to watch.
    pub watch_extensions: Vec<String>,
}

/// The watched extensions as plain character sequences.
pub open spec fn spec_extensions(v: Seq<String>) -> Seq<Seq<char>> {
    v.map_values(|s: String| s@)
}

impl HotReloadConfig {
    /// An equal copy of this configuration.
    pub fn duplicate(&self) -> (r: HotReloadConfig)
        ensures
            r.enabled == self.enabled,
            r.shader_dir@ == self.shader_dir@,
            r.debounce_ms == self.debounce_ms,
            spec_extensions(r.watch_extensions@) == spec_extensions(self.watch_extensions@),
    {
        let mut exts: Vec<String> = Vec::new();
        let mut i: usize = 0;
        let n = self.watch_extensions.len();
        while i < n
            invariant
                n == self.watch_extensions@.len(),
                0 <= i <= n,
                exts@.len() == i,
                forall|k: int| 0 <= k < i ==> #[trigger] exts@[k]@ == self.watch_extensions@[k]@,
            decreases n - i,
        {
            exts.push(self.watch_extensions[i].clone());
            i += 1;
        }
        proof {
            assert(spec_extensions(exts@) =~= spec_extensions(self.watch_extensions@));
        }
        HotReloadConfig {
            enabled: self.enabled,
            shader_dir: self.shader_dir.clone(),
            debounce_ms: self.debounce_ms,
            watch_extensions: exts,
        }
    }
}

impl Default for HotReloadConfig {
    /// The built-in defaults: the configured watch directory, debounce
    /// interval and extension list.
    fn default() -> (r: HotReloadConfig)
        ensures
            r.enabled == hot_reload::ENABLED,
            r.shader_dir@ == hot_reload::SHADER_DIR@,
            r.debounce_ms == hot_reload::DEBOUNCE_MS,
            spec_extensions(r.watch_extensions@).len() == 6,
            spec_extensions(r.watch_extensions@) =~= seq![
                "vert"@,
                "frag"@,
                "geom"@,
                "comp"@,
                "tesc"@,
                "tese"@,
            ],
    {
        let mut exts: Vec<String> = Vec::new();
        exts.push("vert".to_owned());
        exts.push("frag".to_owned());
        exts.push("geom".to_owned());
        exts.push("comp".to_owned());
        exts.push("tesc".to_owned());
        exts.push("tese".to_owned());
        proof {
            assert(spec_extensions(exts@) =~= seq![
                "vert"@,
                "frag"@,
                "geom"@,
                "comp"@,
                "tesc"@,
                "tese"@,
            ]);
        }
        HotReloadConfig {
            enabled: hot_reload::ENABLED,
            shader_dir: hot_reload::SHADER_DIR.to_owned(),
            debounce_ms: hot_reload::DEBOUNCE_MS,
            watch_extensions: exts,
        }
    }
}

/// Whether changed files of this stage are reloaded automatically.
pub open spec fn spec_stage_reload_allowed(stage: ShaderStage) -> bool {
    match stage {
        ShaderStage::Vertex => hot_reload::RELOAD_VERTEX_SHADERS,
        ShaderStage::Fragment => hot_reload::RELOAD_FRAGMENT_SHADERS,
        ShaderStage::Geometry => hot_reload::RELOAD_GEOMETRY_SHADERS,
        ShaderStage::Compute => hot_reload::RELOAD_COMPUTE_SHADERS,
        ShaderStage::TessControl => hot_reload::RELOAD_TESSELLATION_SHADERS,
        ShaderStage::TessEvaluation => hot_reload::RELOAD_TESSELLATION_SHADERS,
    }
}

/// Whether changed files of this stage are reloaded automatically.
pub fn stage_reload_allowed(stage: ShaderStage) -> (r: bool)
    ensures
        r == spec_stage_reload_allowed(stage),
{
    match stage {
        ShaderStage::Vertex => hot_reload::RELOAD_VERTEX_SHADERS,
        ShaderStage::Fragment => hot_reload::RELOAD_FRAGMENT_SHADERS,
        ShaderStage::Geometry => hot_reload::RELOAD_GEOMETRY_SHADERS,
        ShaderStage::Compute => hot_reload::RELOAD_COMPUTE_SHADERS,
        ShaderStage::TessControl => hot_reload::RELOAD_TESSELLATION_SHADERS,
        ShaderStage::TessEvaluation => hot_reload::RELOAD_TESSELLATION_SHADERS,
    }
}

/// What the caller observed for one path of a raw file-system event:
/// the path, and its modification time in milliseconds if the file
/// could be read (a vanished file yields `None` and is skipped).
pub struct FileObservation {
    /// The path the event named.
    pub path: String,
    /// The file's modification time, if it could be read.
    pub mtime_ms: Option<u64>,
}

struct TimeEntry {
    path: String,
    mtime_ms: u64,
}

spec fn time_keys_unique(s: Seq<TimeEntry>) -> bool {
    forall|i: int, j: int| 0 <= i < j < s.len() ==> s[i].path@ != s[j].path@
}

spec fn times_map(s: Seq<TimeEntry>) -> Map<Seq<char>, u64>
    decreases s.len(),
{
    if s.len() == 0 {
        Map::empty()
    } else {
        times_map(s.drop_last()).insert(s.last().path@, s.last().mtime_ms)
    }
}

proof fn lemma_times_map_props(s: Seq<TimeEntry>)
    requires
        time_keys_unique(s),
    ensures
        forall|k: Seq<char>| #[trigger]
            times_map(s).contains_key(k) <==> (exists|i: int|
                0 <= i < s.len() && s[i].path@ == k),
        forall|i: int|
            0 <= i < s.len() ==> #[trigger] times_map(s)[s[i].path@] == s[i].mtime_ms,
        times_map(s).dom().finite(),
        times_map(s).dom().len() == s.len(),
    decreases s.len(),
{
    if s.len() > 0 {
        let t = s.drop_last();
        assert(time_keys_unique(t));
        lemma_times_map_props(t);
        assert(forall|i: int| 0 <= i < t.len() ==> t[i] == s[i]);
        assert(!times_map(t).contains_key(s.last().path@));
        assert forall|i: int| 0 <= i < s.len() implies #[trigger] times_map(s)[s[i].path@]
            == s[i].mtime_ms by {
            if i < s.len() - 1 {
                assert(s[i].path@ != s.last().path@);
                assert(times_map(t)[t[i].path@] == t[i].mtime_ms);
            }
        }
    }
}

proof fn lemma_times_map_update(s: Seq<TimeEntry>, i: int, e: TimeEntry)
    requires
        time_keys_unique(s),
        0 <= i < s.len(),
        s[i].path@ == e.path@,
    ensures
        time_keys_unique(s.remove(i).push(e)),
        times_map(s.remove(i).push(e)) == times_map(s).insert(e.path@, e.mtime_ms),
{
    let s2 = s.remove(i).push(e);
    let n = s.len() as int;
    assert(s2.len() == n);
    assert(forall|j: int| 0 <= j < i ==> s2[j] == s[j]);
    assert(forall|j: int| i <= j < n - 1 ==> s2[j] == s[j + 1]);
    assert(s2[n - 1] == e);
    assert forall|a: int, b: int| 0 <= a < b < n implies s2[a].path@ != s2[b].path@ by {
        if b < n - 1 {
            let a1: int = if a < i { a } else { a + 1 };
            let b1: int = if b < i { b } else { b + 1 };
            assert(s2[a] == s[a1] && s2[b] == s[b1]);
            assert(a1 < b1);
        } else {
            let a1: int = if a < i { a } else { a + 1 };
            assert(s2[a] == s[a1]);
            assert(a1 != i);
            assert(s[a1].path@ != s[i].path@);
        }
    }
    lemma_times_map_props(s);
    lemma_times_map_props(s2);
    let m1 = times_map(s2);
    let m2 = times_map(s).insert(e.path@, e.mtime_ms);
    assert forall|k: Seq<char>| #[trigger] m1.contains_key(k) implies m2.contains_key(k) && m1[k]
        == m2[k] by {
        let j = choose|j: int| 0 <= j < n && s2[j].path@ == k;
        if j == n - 1 {
            assert(k == e.path@);
            assert(m1[s2[n - 1].path@] == e.mtime_ms);
        } else {
            let j1: int = if j < i { j } else { j + 1 };
            assert(s2[j] == s[j1]);
            assert(s[j1].path@ == k);
            assert(times_map(s).contains_key(k));
            assert(m1[s2[j].path@] == s2[j].mtime_ms);
            assert(times_map(s)[s[j1].path@] == s[j1].mtime_ms);
            assert(j1 != i);
            assert(k != e.path@);
        }
    }
    assert forall|k: Seq<char>| #[trigger] m2.contains_key(k) implies m1.contains_key(k) by {
        if k == e.path@ {
            assert(s2[n - 1].path@ == k);
        } else {
            assert(times_map(s).contains_key(k));
            let j = choose|j: int| 0 <= j < n && s[j].path@ == k;
            assert(j != i);
            let j2: int = if j < i { j } else { j - 1 };
            assert(s2[j2] == s[j]);
            assert(s2[j2].path@ == k);
        }
    }
    assert(m1 =~= m2);
}

fn find_time_in(table: &Vec<TimeEntry>, path: &str) -> (r: Option<usize>)
    ensures
        match r {
            Some(i) => i < table@.len() && table@[i as int].path@ == path@,
            None => forall|j: int| 0 <= j < table@.len() ==> table@[j].path@ != path@,
        },
{
    let mut i: usize = 0;
    let n = table.len();
    while i < n
        invariant
            n == table@.len(),
            0 <= i <= n,
            forall|j: int| 0 <= j < i ==> table@[j].path@ != path@,
        decreases n - i,
    {
        if str_eq(table[i].path.as_str(), path) {
            return Some(i);
        }
        i += 1;
    }
    None
}

/// Shader file watcher state: configuration, the debounce table, and a
/// guard that serialises overlapping notifications.
pub struct ShaderWatcher {
    config: HotReloadConfig,
    file_times: Vec<TimeEntry>,
    processing: bool,
}

impl ShaderWatcher {
    #[verifier::type_invariant]
    spec fn wf(&self) -> bool {
        time_keys_unique(self.file_times@)
    }

    /// The debounce table: watched path to last recorded modification
    /// time in milliseconds.
    pub closed spec fn times(&self) -> Map<Seq<char>, u64> {
        times_map(self.file_times@)
    }

    /// Whether the watcher reacts to change events.
    pub closed spec fn spec_enabled(&self) -> bool {
        self.config.enabled
    }

    /// The debounce interval in milliseconds.
    pub closed spec fn spec_debounce_ms(&self) -> u64 {
        self.config.debounce_ms
    }

    /// The watched extensions.
    pub closed spec fn spec_watch_extensions(&self) -> Seq<Seq<char>> {
        spec_extensions(self.config.watch_extensions@)
    }

    /// The watched directory.
    pub closed spec fn spec_shader_dir(&self) -> Seq<char> {
        self.config.shader_dir@
    }

    /// Create a watcher with an empty debounce table. Subscribing the
    /// watched directory to the operating system's notification
    /// facility, and the initial scan that seeds the table through
    /// `refresh_file_times`, are the caller's part.
    pub fn new(config: HotReloadConfig) -> (r: ShaderWatcher)
        ensures
            r.spec_enabled() == config.enabled,
            r.spec_debounce_ms() == config.debounce_ms,
            r.spec_watch_extensions() == spec_extensions(config.watch_extensions@),
            r.spec_shader_dir() == config.shader_dir@,
            r.times() == Map::<Seq<char>, u64>::empty(),
    {
        ShaderWatcher { config, file_times: Vec::new(), processing: false }
    }

    /// Enable or disable reacting to change events. Re-enabling calls
    /// for a fresh directory scan through `refresh_file_times`, so that
    /// the time spent disabled produces no stale change reports.
    pub fn set_enabled(&mut self, enabled: bool)
        ensures
            final(self).spec_enabled() == enabled,
            final(self).spec_debounce_ms() == old(self).spec_debounce_ms(),
            final(self).spec_watch_extensions() == old(self).spec_watch_extensions(),
            final(self).spec_shader_dir() == old(self).spec_shader_dir(),
            final(self).times() == old(self).times(),
    {
        proof {
            use_type_invariant(&*self);
        }
        self.config.enabled = enabled;
    }

    /// Whether the watcher reacts to change events.
    pub fn is_enabled(&self) -> (r: bool)
        ensures
            r == self.spec_enabled(),
    {
        self.config.enabled
    }

    /// Number of files in the debounce table, and whether the watcher
    /// is enabled.
    pub fn get_stats(&self) -> (r: (usize, bool))
        ensures
            r.0 == self.times().dom().len(),
            r.1 == self.spec_enabled(),
    {
        proof {
            use_type_invariant(&*self);
            lemma_times_map_props(self.file_times@);
        }
        (self.file_times.len(), self.config.enabled)
    }

    /// Record the observed modification time for one path.
    fn set_time(&mut self, path: &str, mtime_ms: u64)
        ensures
            final(self).times() == old(self).times().insert(path@, mtime_ms),
            final(self).spec_enabled() == old(self).spec_enabled(),
            final(self).spec_debounce_ms() == old(self).spec_debounce_ms(),
            final(self).spec_watch_extensions() == old(self).spec_watch_extensions(),
            final(self).spec_shader_dir() == old(self).spec_shader_dir(),
            final(self).processing == old(self).processing,
    {
        proof {
            use_type_invariant(&*self);
        }
        let ghost old_table = self.file_times@;
        let entry = TimeEntry { path: path.to_owned(), mtime_ms };
        let mut table: Vec<TimeEntry> = Vec::new();
        std::mem::swap(&mut table, &mut self.file_times);
        match find_time_in(&table, path) {
            Some(i) => {
                proof {
                    lemma_times_map_update(table@, i as int, entry);
                }
                let _old_entry = table.remove(i);
                table.push(entry);
            },
            None => {
                table.push(entry);
                proof {
                    assert(table@.drop_last() =~= old_table);
                    assert(time_keys_unique(table@));
                }
            },
        }
        proof {
            assert(times_map(table@) == times_map(old_table).insert(path@, mtime_ms));
        }
        std::mem::swap(&mut table, &mut self.file_times);
    }
}


/// Observations reduced to plain values: path and optional time.
pub open spec fn spec_observations(v: Seq<FileObservation>) -> Seq<(Seq<char>, Option<u64>)> {
    v.map_values(|o: FileObservation| (o.path@, o.mtime_ms))
}

/// Whether an event for `path` at time `m` passes the debounce filter:
/// the path is new to the table, or at least `debounce` milliseconds
/// have passed since the recorded time.
pub open spec fn spec_accepts(
    times: Map<Seq<char>, u64>,
    path: Seq<char>,
    m: u64,
    debounce: u64,
) -> bool {
    !times.contains_key(path) || m >= times[path] + debounce
}

/// One observation's effect on the watcher: the table after it, and
/// the reload request it produces, if any. An unwatched or unreadable
/// path changes nothing; an accepted event records its time first and
/// then yields a request when its stage is recognised and enabled.
pub open spec fn spec_step(
    times: Map<Seq<char>, u64>,
    ob: (Seq<char>, Option<u64>),
    exts: Seq<Seq<char>>,
    debounce: u64,
) -> (Map<Seq<char>, u64>, Option<(Seq<char>, ShaderStage)>) {
    match spec_extension_of(ob.0) {
        None => (times, None),
        Some(ext) => if !exts.contains(ext) {
            (times, None)
        } else {
            match ob.1 {
                None => (times, None),
                Some(m) => if !spec_accepts(times, ob.0, m, debounce) {
                    (times, None)
                } else {
                    let t2 = times.insert(ob.0, m);
                    match spec_stage_of_extension(ext) {
                        Some(st) => if spec_stage_reload_allowed(st) {
                            (t2, Some((ob.0, st)))
                        } else {
                            (t2, None)
                        },
                        None => (t2, None),
                    }
                },
            }
        },
    }
}

/// The table and the requests produced by a whole event, observation
/// by observation in order.
pub open spec fn spec_process(
    times: Map<Seq<char>, u64>,
    obs: Seq<(Seq<char>, Option<u64>)>,
    exts: Seq<Seq<char>>,
    debounce: u64,
) -> (Map<Seq<char>, u64>, Seq<(Seq<char>, ShaderStage)>)
    decreases obs.len(),
{
    if obs.len() == 0 {
        (times, Seq::empty())
    } else {
        let first = spec_step(times, obs[0], exts, debounce);
        let rest = spec_process(first.0, obs.drop_first(), exts, debounce);
        (
            rest.0,
            match first.1 {
                Some(r) => seq![r] + rest.1,
                None => rest.1,
            },
        )
    }
}

proof fn lemma_process_snoc(
    times: Map<Seq<char>, u64>,
    obs: Seq<(Seq<char>, Option<u64>)>,
    ob: (Seq<char>, Option<u64>),
    exts: Seq<Seq<char>>,
    debounce: u64,
)
    ensures
        spec_process(times, obs.push(ob), exts, debounce) == ({
            let mid = spec_process(times, obs, exts, debounce);
            let stp = spec_step(mid.0, ob, exts, debounce);
            (
                stp.0,
                match stp.1 {
                    Some(r) => mid.1.push(r),
                    None => mid.1,
                },
            )
        }),
    decreases obs.len(),
{
    if obs.len() == 0 {
        assert(obs.push(ob)[0] == ob);
        assert(obs.push(ob).drop_first() =~= Seq::<(Seq<char>, Option<u64>)>::empty());
        let stp = spec_step(times, ob, exts, debounce);
        let empty_out = Seq::<(Seq<char>, ShaderStage)>::empty();
        assert(spec_process(times, obs, exts, debounce) == (times, empty_out));
        assert(spec_process(stp.0, obs.push(ob).drop_first(), exts, debounce) == (
            stp.0,
            empty_out,
        ));
        match stp.1 {
            Some(r) => {
                assert(seq![r] + empty_out =~= empty_out.push(r));
                assert(spec_process(times, obs.push(ob), exts, debounce).1 == seq![r]
                    + empty_out);
            },
            None => {
                assert(spec_process(times, obs.push(ob), exts, debounce).1 == empty_out);
            },
        }
    } else {
        assert(obs.push(ob)[0] == obs[0]);
        assert(obs.push(ob).drop_first() =~= obs.drop_first().push(ob));
        let first = spec_step(times, obs[0], exts, debounce);
        lemma_process_snoc(first.0, obs.drop_first(), ob, exts, debounce);
        let mid = spec_process(first.0, obs.drop_first(), exts, debounce);
        let stp = spec_step(mid.0, ob, exts, debounce);
        let sub = spec_process(first.0, obs.drop_first().push(ob), exts, debounce);
        assert(spec_process(times, obs.push(ob), exts, debounce) == (
            sub.0,
            match first.1 {
                Some(a) => seq![a] + sub.1,
                None => sub.1,
            },
        ));
        let whole = spec_process(times, obs, exts, debounce);
        assert(whole.0 == mid.0);
        assert(whole.1 == (match first.1 {
            Some(a) => seq![a] + mid.1,
            None => mid.1,
        }));
        match (first.1, stp.1) {
            (Some(a), Some(r)) => {
                assert(seq![a] + mid.1.push(r) =~= (seq![a] + mid.1).push(r));
            },
            _ => {},
        }
    }
}

fn contains_extension(exts: &Vec<String>, ext: &str) -> (r: bool)
    ensures
        r == spec_extensions(exts@).contains(ext@),
{
    let mut i: usize = 0;
    let n = exts.len();
    while i < n
        invariant
            n == exts@.len(),
            0 <= i <= n,
            forall|j: int| 0 <= j < i ==> exts@[j]@ != ext@,
        decreases n - i,
    {
        if str_eq(exts[i].as_str(), ext) {
            proof {
                assert(spec_extensions(exts@)[i as int] == ext@);
            }
            return true;
        }
        i += 1;
    }
    proof {
        if spec_extensions(exts@).contains(ext@) {
            let j = choose|j: int|
                0 <= j < spec_extensions(exts@).len() && spec_extensions(exts@)[j] == ext@;
            assert(exts@[j]@ == ext@);
        }
    }
    false
}

impl ShaderWatcher {
    /// Whether a notification is being handled right now.
    pub closed spec fn spec_processing(&self) -> bool {
        self.processing
    }

    /// The recorded time for a path, if the table has one.
    fn lookup_time(&self, path: &str) -> (r: Option<u64>)
        ensures
            match r {
                Some(t) => self.times().contains_key(path@) && self.times()[path@] == t,
                None => !self.times().contains_key(path@),
            },
    {
        proof {
            use_type_invariant(&*self);
            lemma_times_map_props(self.file_times@);
        }
        match find_time_in(&self.file_times, path) {
            Some(i) => {
                proof {
                    assert(exists|j: int|
                        0 <= j < self.file_times@.len() && self.file_times@[j].path@ == path@) by {
                        assert(self.file_times@[i as int].path@ == path@);
                    }
                }
                Some(self.file_times[i].mtime_ms)
            },
            None => {
                proof {
                    if self.times().contains_key(path@) {
                        let j = choose|j: int|
                            0 <= j < self.file_times@.len() && self.file_times@[j].path@ == path@;
                    }
                }
                None
            },
        }
    }

    /// Record the current modification times of a directory scan: each
    /// watched, readable file's time is written into the table. Used to
    /// seed the table at start-up, so files already present are not
    /// reported as changed by their first event.
    pub fn refresh_file_times(&mut self, files: &Vec<FileObservation>)
        ensures
            final(self).times() == spec_record(
                old(self).times(),
                spec_observations(files@),
                old(self).spec_watch_extensions(),
            ),
            final(self).spec_enabled() == old(self).spec_enabled(),
            final(self).spec_debounce_ms() == old(self).spec_debounce_ms(),
            final(self).spec_watch_extensions() == old(self).spec_watch_extensions(),
            final(self).spec_shader_dir() == old(self).spec_shader_dir(),
            final(self).spec_processing() == old(self).spec_processing(),
    {
        proof {
            use_type_invariant(&*self);
        }
        let ghost t0 = self.times();
        let ghost obs_view = spec_observations(files@);
        let ghost exts = self.spec_watch_extensions();
        let mut i: usize = 0;
        let n = files.len();
        while i < n
            invariant
                n == files@.len(),
                0 <= i <= n,
                obs_view == spec_observations(files@),
                exts == self.spec_watch_extensions(),
                self.times() == spec_record(t0, obs_view.take(i as int), exts),
                self.spec_enabled() == old(self).spec_enabled(),
                self.spec_debounce_ms() == old(self).spec_debounce_ms(),
                self.spec_watch_extensions() == old(self).spec_watch_extensions(),
                self.spec_shader_dir() == old(self).spec_shader_dir(),
                self.spec_processing() == old(self).spec_processing(),
            decreases n - i,
        {
            proof {
                lemma_record_snoc(t0, obs_view.take(i as int), obs_view[i as int], exts);
                assert(obs_view.take(i + 1) =~= obs_view.take(i as int).push(
                    obs_view[i as int],
                ));
            }
            let ob = &files[i];
            match extension_of(ob.path.as_str()) {
                None => {},
                Some(ext) => {
                    if contains_extension(&self.config.watch_extensions, ext.as_str()) {
                        match ob.mtime_ms {
                            None => {},
                            Some(m) => {
                                self.set_time(ob.path.as_str(), m);
                            },
                        }
                    }
                },
            }
            i += 1;
        }
        proof {
            assert(obs_view.take(n as int) =~= obs_view);
        }
    }

    /// Handle one raw file-system event. When the watcher is disabled,
    /// or another notification is still being handled, nothing happens
    /// and no request is produced; otherwise the observations are
    /// debounced and classified and the surviving requests returned.
    pub fn handle_file_event(&mut self, observations: &Vec<FileObservation>) -> (r: Vec<
        ShaderReloadRequest,
    >)
        ensures
            (!old(self).spec_enabled() || old(self).spec_processing()) ==> *final(self) == *old(
                self,
            ) && r@.len() == 0,
            (old(self).spec_enabled() && !old(self).spec_processing()) ==> ({
                let outcome = spec_process(
                    old(self).times(),
                    spec_observations(observations@),
                    old(self).spec_watch_extensions(),
                    old(self).spec_debounce_ms(),
                );
                &&& final(self).times() == outcome.0
                &&& r@.map_values(|q: ShaderReloadRequest| crate::hot_reload::spec_request(&q))
                    == outcome.1
                &&& final(self).spec_enabled() == old(self).spec_enabled()
                &&& final(self).spec_debounce_ms() == old(self).spec_debounce_ms()
                &&& final(self).spec_watch_extensions() == old(self).spec_watch_extensions()
                &&& final(self).spec_shader_dir() == old(self).spec_shader_dir()
                &&& final(self).spec_processing() == old(self).spec_processing()
            }),
    {
        proof {
            use_type_invariant(&*self);
        }
        if !self.config.enabled {
            return Vec::new();
        }
        if self.processing {
            return Vec::new();
        }
        self.processing = true;
        let out = self.process_file_event(observations);
        proof {
            use_type_invariant(&*self);
        }
        self.processing = false;
        out
    }

    /// Debounce and classify the paths of one event. For each path in
    /// order: paths without a watched extension and files whose time
    /// could not be read are skipped; an event within the debounce
    /// interval of the recorded time is dropped; an accepted event has
    /// its time recorded first and then produces a request for its
    /// stage, if the stage is recognised and enabled for reload.
    pub fn process_file_event(&mut self, observations: &Vec<FileObservation>) -> (r: Vec<
        ShaderReloadRequest,
    >)
        ensures
            ({
                let outcome = spec_process(
                    old(self).times(),
                    spec_observations(observations@),
                    old(self).spec_watch_extensions(),
                    old(self).spec_debounce_ms(),
                );
                &&& final(self).times() == outcome.0
                &&& r@.map_values(|q: ShaderReloadRequest| crate::hot_reload::spec_request(&q))
                    == outcome.1
                &&& final(self).spec_enabled() == old(self).spec_enabled()
                &&& final(self).spec_debounce_ms() == old(self).spec_debounce_ms()
                &&& final(self).spec_watch_extensions() == old(self).spec_watch_extensions()
                &&& final(self).spec_shader_dir() == old(self).spec_shader_dir()
                &&& final(self).spec_processing() == old(self).spec_processing()
            }),
    {
        proof {
            use_type_invariant(&*self);
        }
        let ghost t0 = self.times();
        let ghost obs_view = spec_observations(observations@);
        let ghost exts = self.spec_watch_extensions();
        let ghost d = self.spec_debounce_ms();
        let mut out: Vec<ShaderReloadRequest> = Vec::new();
        let mut i: usize = 0;
        let n = observations.len();
        proof {
            assert(out@.map_values(|q: ShaderReloadRequest| crate::hot_reload::spec_request(&q))
                =~= Seq::<(Seq<char>, ShaderStage)>::empty());
        }
        while i < n
            invariant
                n == observations@.len(),
                0 <= i <= n,
                obs_view == spec_observations(observations@),
                exts == self.spec_watch_extensions(),
                d == self.spec_debounce_ms(),
                self.times() == spec_process(t0, obs_view.take(i as int), exts, d).0,
                out@.map_values(|q: ShaderReloadRequest| crate::hot_reload::spec_request(&q))
                    == spec_process(t0, obs_view.take(i as int), exts, d).1,
                self.spec_enabled() == old(self).spec_enabled(),
                self.spec_debounce_ms() == old(self).spec_debounce_ms(),
                self.spec_watch_extensions() == old(self).spec_watch_extensions(),
                self.spec_shader_dir() == old(self).spec_shader_dir(),
                self.spec_processing() == old(self).spec_processing(),
            decreases n - i,
        {
            let ghost pre_times = self.times();
            let ghost mid = spec_process(t0, obs_view.take(i as int), exts, d);
            let ghost stp = spec_step(pre_times, obs_view[i as int], exts, d);
            proof {
                lemma_process_snoc(t0, obs_view.take(i as int), obs_view[i as int], exts, d);
                assert(obs_view.take(i + 1) =~= obs_view.take(i as int).push(
                    obs_view[i as int],
                ));
            }
            let ob = &observations[i];
            match extension_of(ob.path.as_str()) {
                None => {},
                Some(ext) => {
                    if contains_extension(&self.config.watch_extensions, ext.as_str()) {
                        match ob.mtime_ms {
                            None => {},
                            Some(m) => {
                                let accept = match self.lookup_time(ob.path.as_str()) {
                                    None => true,
                                    Some(t) => m >= t && m - t >= self.config.debounce_ms,
                                };
                                proof {
                                    assert(accept == spec_accepts(pre_times, ob.path@, m, d));
                                }
                                if accept {
                                    self.set_time(ob.path.as_str(), m);
                                    match stage_of_extension(ext.as_str()) {
                                        Some(st) => {
                                            if stage_reload_allowed(st) {
                                                let request = ShaderReloadRequest {
                                                    shader_path: ob.path.clone(),
                                                    shader_kind: st,
                                                };
                                                out.push(request);
                                            }
                                        },
                                        None => {},
                                    }
                                }
                            },
                        }
                    }
                },
            }
            proof {
                assert(self.times() == stp.0);
                assert(out@.map_values(
                    |q: ShaderReloadRequest| crate::hot_reload::spec_request(&q),
                ) =~= (match stp.1 {
                    Some(rq) => mid.1.push(rq),
                    None => mid.1,
                }));
            }
            i += 1;
        }
        proof {
            assert(obs_view.take(n as int) =~= obs_view);
        }
        out
    }

    /// Classify a manual reload request for one path. A path without an
    /// extension is an error; an extension naming no stage, or a stage
    /// whose automatic reload is disabled, produces no request.
    pub fn reload_shader(&self, shader_path: &str) -> (r: AppResult<Option<ShaderReloadRequest>>)
        ensures
            match spec_extension_of(shader_path@) {
                None => r matches Err(AppError::Vulkan(VulkanError::ShaderCompilation(m))) && m@
                    == "No file extension found for shader: "@ + shader_path@,
                Some(ext) => match spec_stage_of_extension(ext) {
                    Some(st) => if spec_stage_reload_allowed(st) {
                        r matches Ok(Some(req)) && req.shader_path@ == shader_path@
                            && req.shader_kind == st
                    } else {
                        r matches Ok(o) && o is None
                    },
                    None => r matches Ok(o) && o is None,
                },
            },
    {
        match extension_of(shader_path) {
            None => Err(
                AppError::Vulkan(
                    VulkanError::ShaderCompilation(
                        crate::error::concat2("No file extension found for shader: ", shader_path),
                    ),
                ),
            ),
            Some(ext) => match stage_of_extension(ext.as_str()) {
                Some(st) => {
                    if stage_reload_allowed(st) {
                        Ok(
                            Some(
                                ShaderReloadRequest {
                                    shader_path: shader_path.to_owned(),
                                    shader_kind: st,
                                },
                            ),
                        )
                    } else {
                        Ok(None)
                    }
                },
                None => Ok(None),
            },
        }
    }
}

/// The table after recording a directory scan: each watched, readable
/// file's time written in order.
pub open spec fn spec_record(
    times: Map<Seq<char>, u64>,
    obs: Seq<(Seq<char>, Option<u64>)>,
    exts: Seq<Seq<char>>,
) -> Map<Seq<char>, u64>
    decreases obs.len(),
{
    if obs.len() == 0 {
        times
    } else {
        let t1 = spec_record_one(times, obs[0], exts);
        spec_record(t1, obs.drop_first(), exts)
    }
}

/// Recording one scanned file: watched extension and readable time
/// update the table, everything else leaves it alone.
pub open spec fn spec_record_one(
    times: Map<Seq<char>, u64>,
    ob: (Seq<char>, Option<u64>),
    exts: Seq<Seq<char>>,
) -> Map<Seq<char>, u64> {
    match spec_extension_of(ob.0) {
        None => times,
        Some(ext) => if !exts.contains(ext) {
            times
        } else {
            match ob.1 {
                None => times,
                Some(m) => times.insert(ob.0, m),
            }
        },
    }
}

proof fn lemma_record_snoc(
    times: Map<Seq<char>, u64>,
    obs: Seq<(Seq<char>, Option<u64>)>,
    ob: (Seq<char>, Option<u64>),
    exts: Seq<Seq<char>>,
)
    ensures
        spec_record(times, obs.push(ob), exts) == spec_record_one(
            spec_record(times, obs, exts),
            ob,
            exts,
        ),
    decreases obs.len(),
{
    if obs.len() == 0 {
        assert(obs.push(ob)[0] == ob);
        assert(obs.push(ob).drop_first() =~= Seq::<(Seq<char>, Option<u64>)>::empty());
        assert(spec_record(times, obs.push(ob), exts) == spec_record(
            spec_record_one(times, ob, exts),
            obs.push(ob).drop_first(),
            exts,
        ));
        assert(spec_record(times, obs, exts) == times);
    } else {
        assert(obs.push(ob)[0] == obs[0]);
        assert(obs.push(ob).drop_first() =~= obs.drop_first().push(ob));
        lemma_record_snoc(spec_record_one(times, obs[0], exts), obs.drop_first(), ob, exts);
        assert(spec_record(times, obs.push(ob), exts) == spec_record(
            spec_record_one(times, obs[0], exts),
            obs.drop_first().push(ob),
            exts,
        ));
        assert(spec_record(times, obs, exts) == spec_record(
            spec_record_one(times, obs[0], exts),
            obs.drop_first(),
            exts,
        ));
    }
}

/// Law: a burst of rapid events on one path is debounced to at most
/// one reload. If every event of a batch names the same path, each
/// carries a time, and all the times lie within one debounce interval
/// of each other, then at most one request comes out, whatever the
/// table held before.
pub proof fn lemma_debounce_burst(
    times: Map<Seq<char>, u64>,
    obs: Seq<(Seq<char>, Option<u64>)>,
    ms: Seq<u64>,
    exts: Seq<Seq<char>>,
    debounce: u64,
    path: Seq<char>,
)
    requires
        debounce >= 1,
        obs.len() == ms.len(),
        forall|i: int| 0 <= i < obs.len() ==> obs[i] == (path, Some(ms[i])),
        forall|i: int, j: int| 0 <= i < obs.len() && 0 <= j < obs.len() ==> ms[i] < ms[j] + debounce,
    ensures
        spec_process(times, obs, exts, debounce).1.len() <= 1,
    decreases obs.len(),
{
    if obs.len() > 0 {
        let first = spec_step(times, obs[0], exts, debounce);
        let rest = obs.drop_first();
        let rest_ms = ms.drop_first();
        assert(forall|i: int| 0 <= i < rest.len() ==> rest[i] == (path, Some(rest_ms[i])));
        if first.0 == times {
            lemma_debounce_burst(times, rest, rest_ms, exts, debounce, path);
        } else {
            assert(first.0 == times.insert(path, ms[0]));
            lemma_debounce_settled(first.0, rest, rest_ms, exts, debounce, path, ms[0]);
        }
    }
}

/// After an accepted event at time `settled`, every further event of
/// the same burst lies within the debounce interval and is dropped.
proof fn lemma_debounce_settled(
    times: Map<Seq<char>, u64>,
    obs: Seq<(Seq<char>, Option<u64>)>,
    ms: Seq<u64>,
    exts: Seq<Seq<char>>,
    debounce: u64,
    path: Seq<char>,
    settled: u64,
)
    requires
        debounce >= 1,
        obs.len() == ms.len(),
        times.contains_key(path),
        times[path] == settled,
        forall|i: int| 0 <= i < obs.len() ==> obs[i] == (path, Some(ms[i])),
        forall|i: int| 0 <= i < obs.len() ==> ms[i] < settled + debounce,
    ensures
        spec_process(times, obs, exts, debounce) == (times, Seq::<(Seq<char>, ShaderStage)>::empty()),
    decreases obs.len(),
{
    if obs.len() > 0 {
        let first = spec_step(times, obs[0], exts, debounce);
        assert(!spec_accepts(times, path, ms[0], debounce));
        assert(first == (times, None::<(Seq<char>, ShaderStage)>));
        let rest = obs.drop_first();
        let rest_ms = ms.drop_first();
        assert(forall|i: int| 0 <= i < rest.len() ==> rest[i] == (path, Some(rest_ms[i])));
        lemma_debounce_settled(times, rest, rest_ms, exts, debounce, path, settled);
    }
}

} // verus!
