//! Runtime shader compilation with content-addressed caching.
//!
//! The compiler keeps a cache keyed by file name; each record stores the
//! hash of the source it was compiled from and the compiled words. A
//! lookup is a hit only when the hash of the current source matches the
//! stored hash, so stale records are never served. The translation of
//! source text into compiled words is the backend's job: `begin_compile`
//! either answers from the cache or hands back the job to run, and
//! `finish_compile` validates and caches what the backend produced.

use vstd::prelude::*;
use vstd::string::StrSliceExecFns;
use vstd::string::StringExecFns;

use crate::error::AppError;
use crate::error::AppResult;
use crate::error::VulkanError;
use crate::stage::ShaderStage;
use crate::stage::extension_of;
use crate::stage::spec_extension_of;
use crate::stage::spec_stage_of_extension;
use crate::stage::stage_of_extension;
use crate::stage::str_eq;

verus! {

/// Optimization level for shader compilation.
#[derive(Clone, Copy, Debug, PartialEq, Eq, Structural)]
pub enum OptimizationLevel {
    /// No optimization.
    Zero,
    /// Optimize towards reducing code size.
    Size,
    /// Optimize towards performance.
    Performance,
}

/// One cache record: the file it belongs to, the hash of the source it
/// was compiled from, and the compiled words.
struct CacheEntry {
    key: String,
    source_hash: u64,
    spirv: Vec<u32>,
}

/// A compilation job for the backend: everything the underlying
/// compiler needs beside the source text itself.
pub struct BackendJob {
    /// File name, used to tag diagnostics.
    pub file_name: String,
    /// Entry point function name.
    pub entry_point: String,
    /// Stage to compile the source as.
    pub stage: ShaderStage,
    /// Optimization level to compile with.
    pub optimization_level: OptimizationLevel,
    /// Whether to generate debug info.
    pub debug_info: bool,
}

/// What a compile request resolves to: a cached binary, or a job the
/// backend must run.
pub enum CompilePlan {
    /// The cache already holds the binary for this exact source.
    UseCached(Vec<u32>),
    /// The backend must be invoked with this job.
    RunBackend(BackendJob),
}

/// FNV-1a offset basis.
pub const FNV_OFFSET: u64 = 0xcbf29ce484222325;

/// FNV-1a prime.
pub const FNV_PRIME: u64 = 0x100000001b3;

/// One FNV-1a step: fold a code point into the accumulator.
pub open spec fn spec_hash_step(h: u64, c: char) -> u64 {
    ((((h ^ (c as u64)) * FNV_PRIME) % 0x10000000000000000) as u64)
}

/// FNV-1a over a character sequence, starting from `acc`.
pub open spec fn spec_hash_from(s: Seq<char>, acc: u64) -> u64
    decreases s.len(),
{
    if s.len() == 0 {
        acc
    } else {
        spec_hash_from(s.drop_first(), spec_hash_step(acc, s[0]))
    }
}

/// Content hash of a source text.
pub open spec fn spec_source_hash(s: Seq<char>) -> u64 {
    spec_hash_from(s, FNV_OFFSET)
}

/// Whether a lookup of `file` with `source` hits in cache `m`: the file
/// has a record and that record's hash is the hash of `source`.
pub open spec fn spec_cache_hit(
    m: Map<Seq<char>, (u64, Seq<u32>)>,
    file: Seq<char>,
    source: Seq<char>,
) -> bool {
    m.contains_key(file) && m[file].0 == spec_source_hash(source)
}

/// Byte size of all cached binaries, four bytes per word.
pub open spec fn spec_cache_bytes(s: Seq<(u64, Seq<u32>)>) -> nat
    decreases s.len(),
{
    if s.len() == 0 {
        0
    } else {
        spec_cache_bytes(s.drop_last()) + s.last().1.len() * 4
    }
}

spec fn keys_unique(s: Seq<CacheEntry>) -> bool {
    forall|i: int, j: int| 0 <= i < j < s.len() ==> s[i].key@ != s[j].key@
}

spec fn entries_map(s: Seq<CacheEntry>) -> Map<Seq<char>, (u64, Seq<u32>)>
    decreases s.len(),
{
    if s.len() == 0 {
        Map::empty()
    } else {
        entries_map(s.drop_last()).insert(s.last().key@, (s.last().source_hash, s.last().spirv@))
    }
}

spec fn entries_list(s: Seq<CacheEntry>) -> Seq<(u64, Seq<u32>)> {
    s.map_values(|e: CacheEntry| (e.source_hash, e.spirv@))
}

proof fn lemma_entries_map_props(s: Seq<CacheEntry>)
    requires
        keys_unique(s),
    ensures
        forall|k: Seq<char>| #[trigger]
            entries_map(s).contains_key(k) <==> (exists|i: int|
                0 <= i < s.len() && s[i].key@ == k),
        forall|i: int|
            0 <= i < s.len() ==> #[trigger] entries_map(s)[s[i].key@] == (
                s[i].source_hash,
                s[i].spirv@,
            ),
        entries_map(s).dom().finite(),
        entries_map(s).dom().len() == s.len(),
    decreases s.len(),
{
    if s.len() > 0 {
        let t = s.drop_last();
        assert(keys_unique(t));
        lemma_entries_map_props(t);
        assert(forall|i: int| 0 <= i < t.len() ==> t[i] == s[i]);
        assert(!entries_map(t).contains_key(s.last().key@));
        assert forall|i: int| 0 <= i < s.len() implies #[trigger] entries_map(s)[s[i].key@] == (
            s[i].source_hash,
            s[i].spirv@,
        ) by {
            if i < s.len() - 1 {
                assert(s[i].key@ != s.last().key@);
                assert(entries_map(t)[t[i].key@] == (t[i].source_hash, t[i].spirv@));
            }
        }
    }
}

fn copy_words(src: &Vec<u32>) -> (r: Vec<u32>)
    ensures
        r@ == src@,
{
    let mut r: Vec<u32> = Vec::new();
    let mut i: usize = 0;
    let n = src.len();
    while i < n
        invariant
            n == src@.len(),
            0 <= i <= n,
            r@ == src@.take(i as int),
        decreases n - i,
    {
        r.push(src[i]);
        proof {
            assert(src@.take(i + 1) =~= src@.take(i as int).push(src@[i as int]));
        }
        i += 1;
    }
    proof {
        assert(src@.take(n as int) =~= src@);
    }
    r
}

proof fn lemma_hash_snoc(s: Seq<char>, x: char, acc: u64)
    ensures
        spec_hash_from(s.push(x), acc) == spec_hash_step(spec_hash_from(s, acc), x),
    decreases s.len(),
{
    if s.len() == 0 {
        assert(s.push(x).drop_first() =~= Seq::<char>::empty());
        assert(s.push(x)[0] == x);
        assert(spec_hash_from(s.push(x), acc) == spec_hash_from(
            s.push(x).drop_first(),
            spec_hash_step(acc, x),
        ));
    } else {
        assert(s.push(x).drop_first() =~= s.drop_first().push(x));
        assert(s.push(x)[0] == s[0]);
        lemma_hash_snoc(s.drop_first(), x, spec_hash_step(acc, s[0]));
        assert(spec_hash_from(s.push(x), acc) == spec_hash_from(
            s.drop_first().push(x),
            spec_hash_step(acc, s[0]),
        ));
        assert(spec_hash_from(s, acc) == spec_hash_from(s.drop_first(), spec_hash_step(acc, s[0])));
    }
}

proof fn lemma_entries_map_update(s: Seq<CacheEntry>, i: int, e: CacheEntry)
    requires
        keys_unique(s),
        0 <= i < s.len(),
        s[i].key@ == e.key@,
    ensures
        keys_unique(s.remove(i).push(e)),
        entries_map(s.remove(i).push(e)) == entries_map(s).insert(
            e.key@,
            (e.source_hash, e.spirv@),
        ),
{
    let s2 = s.remove(i).push(e);
    let n = s.len() as int;
    assert(s2.len() == n);
    assert(forall|j: int| 0 <= j < i ==> s2[j] == s[j]);
    assert(forall|j: int| i <= j < n - 1 ==> s2[j] == s[j + 1]);
    assert(s2[n - 1] == e);
    assert forall|a: int, b: int| 0 <= a < b < n implies s2[a].key@ != s2[b].key@ by {
        if b < n - 1 {
            let a1: int = if a < i { a } else { a + 1 };
            let b1: int = if b < i { b } else { b + 1 };
            assert(s2[a] == s[a1] && s2[b] == s[b1]);
            assert(a1 < b1);
        } else {
            let a1: int = if a < i { a } else { a + 1 };
            assert(s2[a] == s[a1]);
            assert(a1 != i);
            assert(s[a1].key@ != s[i].key@);
        }
    }
    lemma_entries_map_props(s);
    lemma_entries_map_props(s2);
    let m1 = entries_map(s2);
    let m2 = entries_map(s).insert(e.key@, (e.source_hash, e.spirv@));
    assert forall|k: Seq<char>| #[trigger] m1.contains_key(k) implies m2.contains_key(k) && m1[k]
        == m2[k] by {
        let j = choose|j: int| 0 <= j < n && s2[j].key@ == k;
        if j == n - 1 {
            assert(k == e.key@);
            assert(m1[s2[n - 1].key@] == (e.source_hash, e.spirv@));
        } else {
            let j1: int = if j < i { j } else { j + 1 };
            assert(s2[j] == s[j1]);
            assert(s[j1].key@ == k);
            assert(entries_map(s).contains_key(k));
            assert(m1[s2[j].key@] == (s2[j].source_hash, s2[j].spirv@));
            assert(entries_map(s)[s[j1].key@] == (s[j1].source_hash, s[j1].spirv@));
            assert(j1 != i);
            assert(k != e.key@);
        }
    }
    assert forall|k: Seq<char>| #[trigger] m2.contains_key(k) implies m1.contains_key(k) by {
        if k == e.key@ {
            assert(s2[n - 1].key@ == k);
        } else {
            assert(entries_map(s).contains_key(k));
            let j = choose|j: int| 0 <= j < n && s[j].key@ == k;
            assert(j != i);
            let j2: int = if j < i { j } else { j - 1 };
            assert(s2[j2] == s[j]);
            assert(s2[j2].key@ == k);
        }
    }
    assert(m1 =~= m2);
}

/// Runtime shader compiler state: the cache, the configuration, and a
/// count of backend invocations issued so far.
pub struct ShaderCompiler {
    cache: Vec<CacheEntry>,
    enable_cache: bool,
    enable_debug: bool,
    optimization_level: OptimizationLevel,
    backend_runs: u64,
}

impl ShaderCompiler {
    #[verifier::type_invariant]
    spec fn wf(&self) -> bool {
        keys_unique(self.cache@)
    }

    /// The cache contents: file name to (source hash, compiled words).
    pub closed spec fn cache_map(&self) -> Map<Seq<char>, (u64, Seq<u32>)> {
        entries_map(self.cache@)
    }

    /// Total byte size of the cached binaries, four bytes per word.
    pub closed spec fn cache_size_bytes(&self) -> nat {
        spec_cache_bytes(entries_list(self.cache@))
    }

    /// Whether caching is enabled.
    pub closed spec fn spec_cache_enabled(&self) -> bool {
        self.enable_cache
    }

    /// Whether debug info generation is enabled.
    pub closed spec fn spec_debug_enabled(&self) -> bool {
        self.enable_debug
    }

    /// The configured optimization level.
    pub closed spec fn spec_optimization_level(&self) -> OptimizationLevel {
        self.optimization_level
    }

    /// How many backend invocations have been issued.
    pub closed spec fn spec_backend_runs(&self) -> u64 {
        self.backend_runs
    }

    /// Create a compiler with an empty cache, caching on, debug info
    /// on, and no optimization.
    pub fn new() -> (r: AppResult<ShaderCompiler>)
        ensures
            match r {
                Ok(c) => c.cache_map() == Map::<Seq<char>, (u64, Seq<u32>)>::empty()
                    && c.spec_cache_enabled() && c.spec_debug_enabled()
                    && c.spec_optimization_level() == OptimizationLevel::Zero
                    && c.spec_backend_runs() == 0,
                Err(_) => false,
            },
    {
        Ok(
            ShaderCompiler {
                cache: Vec::new(),
                enable_cache: true,
                enable_debug: true,
                optimization_level: OptimizationLevel::Zero,
                backend_runs: 0,
            },
        )
    }

    /// Change the compilation settings; the cache and the invocation
    /// count are untouched.
    pub fn configure(
        &mut self,
        enable_cache: bool,
        enable_debug: bool,
        optimization_level: OptimizationLevel,
    )
        ensures
            final(self).spec_cache_enabled() == enable_cache,
            final(self).spec_debug_enabled() == enable_debug,
            final(self).spec_optimization_level() == optimization_level,
            final(self).cache_map() == old(self).cache_map(),
            final(self).cache_size_bytes() == old(self).cache_size_bytes(),
            final(self).spec_backend_runs() == old(self).spec_backend_runs(),
    {
        proof {
            use_type_invariant(&*self);
        }
        self.enable_cache = enable_cache;
        self.enable_debug = enable_debug;
        self.optimization_level = optimization_level;
    }

    /// Content hash of a source text.
    pub fn hash_source(&self, content: &str) -> (r: u64)
        ensures
            r == spec_source_hash(content@),
    {
        let n = content.unicode_len();
        let mut h: u64 = FNV_OFFSET;
        let mut i: usize = 0;
        while i < n
            invariant
                n == content@.len(),
                0 <= i <= n,
                h == spec_hash_from(content@.take(i as int), FNV_OFFSET),
            decreases n - i,
        {
            let c = content.get_char(i);
            proof {
                lemma_hash_snoc(content@.take(i as int), c, FNV_OFFSET);
                assert(content@.take(i + 1) =~= content@.take(i as int).push(c));
            }
            h = h ^ (c as u64);
            h = h.wrapping_mul(FNV_PRIME);
            i += 1;
        }
        proof {
            assert(content@.take(n as int) =~= content@);
        }
        h
    }

    /// Index of the record for `file_name`, if one exists.
    fn find_entry(&self, file_name: &str) -> (r: Option<usize>)
        ensures
            match r {
                Some(i) => i < self.cache@.len() && self.cache@[i as int].key@ == file_name@
                    && self.cache_map().contains_key(file_name@),
                None => !self.cache_map().contains_key(file_name@),
            },
    {
        proof {
            use_type_invariant(&*self);
            lemma_entries_map_props(self.cache@);
        }
        let mut i: usize = 0;
        let n = self.cache.len();
        while i < n
            invariant
                keys_unique(self.cache@),
                n == self.cache@.len(),
                0 <= i <= n,
                forall|j: int| 0 <= j < i ==> self.cache@[j].key@ != file_name@,
            decreases n - i,
        {
            if str_eq(self.cache[i].key.as_str(), file_name) {
                proof {
                    lemma_entries_map_props(self.cache@);
                    assert(exists|j: int|
                        0 <= j < self.cache@.len() && self.cache@[j].key@ == file_name@) by {
                        assert(self.cache@[i as int].key@ == file_name@);
                    }
                }
                return Some(i);
            }
            i += 1;
        }
        proof {
            lemma_entries_map_props(self.cache@);
        }
        None
    }

    /// Look the file up in the cache and validate the record against the
    /// current source: a record whose stored hash differs from the hash
    /// of `source` is a miss.
    fn check_cache(&self, source: &str, file_name: &str) -> (r: Option<Vec<u32>>)
        ensures
            match r {
                Some(w) => spec_cache_hit(self.cache_map(), file_name@, source@) && w@
                    == self.cache_map()[file_name@].1,
                None => !spec_cache_hit(self.cache_map(), file_name@, source@),
            },
    {
        proof {
            use_type_invariant(&*self);
            lemma_entries_map_props(self.cache@);
        }
        match self.find_entry(file_name) {
            None => None,
            Some(i) => {
                let source_hash = self.hash_source(source);
                if self.cache[i].source_hash == source_hash {
                    Some(copy_words(&self.cache[i].spirv))
                } else {
                    None
                }
            },
        }
    }

    /// Store a compiled binary for `file_name`, keyed by the hash of the
    /// source it was compiled from. A previous record for the same file
    /// is replaced whole.
    fn cache_result(&mut self, file_name: &str, source_hash: u64, spirv: &Vec<u32>)
        ensures
            final(self).cache_map() == old(self).cache_map().insert(
                file_name@,
                (source_hash, spirv@),
            ),
            final(self).spec_cache_enabled() == old(self).spec_cache_enabled(),
            final(self).spec_debug_enabled() == old(self).spec_debug_enabled(),
            final(self).spec_optimization_level() == old(self).spec_optimization_level(),
            final(self).spec_backend_runs() == old(self).spec_backend_runs(),
    {
        proof {
            use_type_invariant(&*self);
            lemma_entries_map_props(self.cache@);
        }
        let ghost old_cache = self.cache@;
        let entry = CacheEntry { key: file_name.to_owned(), source_hash, spirv: copy_words(spirv) };
        let mut cache: Vec<CacheEntry> = Vec::new();
        std::mem::swap(&mut cache, &mut self.cache);
        match find_entry_in(&cache, file_name) {
            Some(i) => {
                proof {
                    lemma_entries_map_update(cache@, i as int, entry);
                }
                let _old_entry = cache.remove(i);
                cache.push(entry);
            },
            None => {
                cache.push(entry);
                proof {
                    assert(cache@.drop_last() =~= old_cache);
                    assert(keys_unique(cache@));
                }
            },
        }
        proof {
            assert(entries_map(cache@) == entries_map(old_cache).insert(
                file_name@,
                (source_hash, spirv@),
            ));
        }
        std::mem::swap(&mut cache, &mut self.cache);
    }

}

/// Index of the record for `file_name` in a cache snapshot.
fn find_entry_in(cache: &Vec<CacheEntry>, file_name: &str) -> (r: Option<usize>)
    ensures
        match r {
            Some(i) => i < cache@.len() && cache@[i as int].key@ == file_name@,
            None => forall|j: int| 0 <= j < cache@.len() ==> cache@[j].key@ != file_name@,
        },
{
    let mut i: usize = 0;
    let n = cache.len();
    while i < n
        invariant
            n == cache@.len(),
            0 <= i <= n,
            forall|j: int| 0 <= j < i ==> cache@[j].key@ != file_name@,
        decreases n - i,
    {
        if str_eq(cache[i].key.as_str(), file_name) {
            return Some(i);
        }
        i += 1;
    }
    None
}


/// The compiler's settings agree between two states.
pub open spec fn same_settings(a: &ShaderCompiler, b: &ShaderCompiler) -> bool {
    &&& a.spec_cache_enabled() == b.spec_cache_enabled()
    &&& a.spec_debug_enabled() == b.spec_debug_enabled()
    &&& a.spec_optimization_level() == b.spec_optimization_level()
}

/// Saturating increment, so the invocation counter never overflows.
pub open spec fn sat_inc(x: u64) -> u64 {
    if x < u64::MAX {
        (x + 1) as u64
    } else {
        x
    }
}

fn concat2(a: &str, b: &str) -> (r: String)
    ensures
        r@ == a@ + b@,
{
    let mut s = String::from_str(a);
    s.append(b);
    s
}

fn concat3(a: &str, b: &str, c: &str) -> (r: String)
    ensures
        r@ == a@ + b@ + c@,
{
    let mut s = String::from_str(a);
    s.append(b);
    s.append(c);
    s
}

fn concat4(a: &str, b: &str, c: &str, d: &str) -> (r: String)
    ensures
        r@ == a@ + b@ + c@ + d@,
{
    let mut s = String::from_str(a);
    s.append(b);
    s.append(c);
    s.append(d);
    s
}

impl ShaderCompiler {
    /// Determine the shader stage from a path's file extension.
    pub fn determine_shader_kind(&self, path: &str) -> (r: AppResult<ShaderStage>)
        ensures
            match spec_extension_of(path@) {
                None => r matches Err(AppError::Vulkan(VulkanError::ShaderCompilation(m))) && m@
                    == "No file extension found for shader: "@ + path@,
                Some(ext) => match spec_stage_of_extension(ext) {
                    Some(stage) => r == Ok::<ShaderStage, AppError>(stage),
                    None => r matches Err(AppError::Vulkan(VulkanError::ShaderCompilation(m)))
                        && m@ == "Unsupported shader extension: "@ + ext,
                },
            },
    {
        match extension_of(path) {
            None => Err(
                AppError::Vulkan(
                    VulkanError::ShaderCompilation(
                        concat2("No file extension found for shader: ", path),
                    ),
                ),
            ),
            Some(ext) => match stage_of_extension(ext.as_str()) {
                Some(stage) => Ok(stage),
                None => Err(
                    AppError::Vulkan(
                        VulkanError::ShaderCompilation(
                            concat2("Unsupported shader extension: ", ext.as_str()),
                        ),
                    ),
                ),
            },
        }
    }

    /// Resolve a compile request: answer from the cache when the stored
    /// record was compiled from this very source, otherwise hand back
    /// the job the backend must run. Only a miss issues an invocation.
    pub fn begin_compile(
        &mut self,
        source: &str,
        file_name: &str,
        entry_point: &str,
        stage: ShaderStage,
    ) -> (r: CompilePlan)
        ensures
            match r {
                CompilePlan::UseCached(w) => {
                    &&& old(self).spec_cache_enabled()
                    &&& spec_cache_hit(old(self).cache_map(), file_name@, source@)
                    &&& w@ == old(self).cache_map()[file_name@].1
                    &&& *final(self) == *old(self)
                },
                CompilePlan::RunBackend(job) => {
                    &&& !(old(self).spec_cache_enabled() && spec_cache_hit(
                        old(self).cache_map(),
                        file_name@,
                        source@,
                    ))
                    &&& job.file_name@ == file_name@
                    &&& job.entry_point@ == entry_point@
                    &&& job.stage == stage
                    &&& job.optimization_level == old(self).spec_optimization_level()
                    &&& job.debug_info == old(self).spec_debug_enabled()
                    &&& final(self).cache_map() == old(self).cache_map()
                    &&& final(self).cache_size_bytes() == old(self).cache_size_bytes()
                    &&& same_settings(old(self), final(self))
                    &&& final(self).spec_backend_runs() == sat_inc(old(self).spec_backend_runs())
                },
            },
    {
        proof {
            use_type_invariant(&*self);
        }
        if self.enable_cache {
            match self.check_cache(source, file_name) {
                Some(w) => {
                    return CompilePlan::UseCached(w);
                },
                None => {},
            }
        }
        self.backend_runs = if self.backend_runs < u64::MAX {
            self.backend_runs + 1
        } else {
            self.backend_runs
        };
        CompilePlan::RunBackend(
            BackendJob {
                file_name: file_name.to_owned(),
                entry_point: entry_point.to_owned(),
                stage,
                optimization_level: self.optimization_level,
                debug_info: self.enable_debug,
            },
        )
    }

    /// Take what the backend produced for `file_name`: reject a failed
    /// run or an empty binary with a compilation error and leave the
    /// cache as it was; store and return a non-empty binary, keyed by
    /// the hash of the source it was compiled from.
    pub fn finish_compile(
        &mut self,
        source: &str,
        file_name: &str,
        backend_result: Result<Vec<u32>, String>,
    ) -> (r: AppResult<Vec<u32>>)
        ensures
            same_settings(old(self), final(self)),
            final(self).spec_backend_runs() == old(self).spec_backend_runs(),
            match backend_result {
                Err(diag) => {
                    &&& final(self).cache_map() == old(self).cache_map()
                    &&& final(self).cache_size_bytes() == old(self).cache_size_bytes()
                    &&& r matches Err(AppError::Vulkan(VulkanError::ShaderCompilation(m))) && m@
                        == "Failed to compile shader '"@ + file_name@ + "': "@ + diag@
                },
                Ok(words) => if words@.len() == 0 {
                    &&& final(self).cache_map() == old(self).cache_map()
                    &&& final(self).cache_size_bytes() == old(self).cache_size_bytes()
                    &&& r matches Err(AppError::Vulkan(VulkanError::ShaderCompilation(m))) && m@
                        == "Compilation produced empty SPIR-V for shader '"@ + file_name@ + "'"@
                } else {
                    &&& r matches Ok(w) && w@ == words@
                    &&& final(self).cache_map() == if old(self).spec_cache_enabled() {
                        old(self).cache_map().insert(
                            file_name@,
                            (spec_source_hash(source@), words@),
                        )
                    } else {
                        old(self).cache_map()
                    }
                },
            },
    {
        proof {
            use_type_invariant(&*self);
        }
        match backend_result {
            Err(diag) => Err(
                AppError::Vulkan(
                    VulkanError::ShaderCompilation(
                        concat4("Failed to compile shader '", file_name, "': ", diag.as_str()),
                    ),
                ),
            ),
            Ok(words) => {
                if words.len() == 0 {
                    Err(
                        AppError::Vulkan(
                            VulkanError::ShaderCompilation(
                                concat3(
                                    "Compilation produced empty SPIR-V for shader '",
                                    file_name,
                                    "'",
                                ),
                            ),
                        ),
                    )
                } else {
                    if self.enable_cache {
                        let h = self.hash_source(source);
                        self.cache_result(file_name, h, &words);
                    }
                    Ok(words)
                }
            },
        }
    }

    /// Empty the cache unconditionally.
    pub fn clear_cache(&mut self)
        ensures
            final(self).cache_map() == Map::<Seq<char>, (u64, Seq<u32>)>::empty(),
            final(self).cache_size_bytes() == 0,
            final(self).spec_cache_enabled() == old(self).spec_cache_enabled(),
            final(self).spec_debug_enabled() == old(self).spec_debug_enabled(),
            final(self).spec_optimization_level() == old(self).spec_optimization_level(),
            final(self).spec_backend_runs() == old(self).spec_backend_runs(),
    {
        proof {
            use_type_invariant(&*self);
        }
        self.cache = Vec::new();
        proof {
            assert(entries_list(self.cache@) =~= Seq::<(u64, Seq<u32>)>::empty());
        }
    }

    /// Number of cached shaders and their total byte size.
    pub fn get_cache_stats(&self) -> (r: (usize, usize))
        ensures
            r.0 == self.cache_map().dom().len(),
            r.1 as nat == if self.cache_size_bytes() <= usize::MAX as nat {
                self.cache_size_bytes()
            } else {
                usize::MAX as nat
            },
    {
        proof {
            use_type_invariant(&*self);
            lemma_entries_map_props(self.cache@);
        }
        let count = self.cache.len();
        let mut size: usize = 0;
        let mut i: usize = 0;
        let n = self.cache.len();
        while i < n
            invariant
                n == self.cache@.len(),
                0 <= i <= n,
                size as nat == if spec_cache_bytes(entries_list(self.cache@.take(i as int)))
                    <= usize::MAX as nat {
                    spec_cache_bytes(entries_list(self.cache@.take(i as int)))
                } else {
                    usize::MAX as nat
                },
            decreases n - i,
        {
            let words = self.cache[i].spirv.len();
            let bytes = if words <= usize::MAX / 4 {
                words * 4
            } else {
                usize::MAX
            };
            size = if size <= usize::MAX - bytes {
                size + bytes
            } else {
                usize::MAX
            };
            proof {
                let t1 = entries_list(self.cache@.take(i + 1));
                let t0 = entries_list(self.cache@.take(i as int));
                assert(t1.drop_last() =~= t0);
                assert(t1.last() == (
                    self.cache@[i as int].source_hash,
                    self.cache@[i as int].spirv@,
                ));
            }
            i += 1;
        }
        proof {
            assert(self.cache@.take(n as int) =~= self.cache@);
        }
        (count, size)
    }

    /// How many backend invocations have been issued so far.
    pub fn backend_runs(&self) -> (r: u64)
        ensures
            r == self.spec_backend_runs(),
    {
        self.backend_runs
    }
}

/// Law: once a compile of `source` has been stored for `file`, looking
/// the same file and source up again is a cache hit, so no further
/// backend invocation is issued for unmodified content.
pub proof fn lemma_unchanged_source_hits(
    m: Map<Seq<char>, (u64, Seq<u32>)>,
    file: Seq<char>,
    source: Seq<char>,
    words: Seq<u32>,
)
    ensures
        spec_cache_hit(m.insert(file, (spec_source_hash(source), words)), file, source),
{
}

/// Law: a stored record never serves a source whose hash differs: once
/// the content changes hash, the lookup is a miss and the file is
/// recompiled.
pub proof fn lemma_changed_source_misses(
    m: Map<Seq<char>, (u64, Seq<u32>)>,
    file: Seq<char>,
    stored_source: Seq<char>,
    current_source: Seq<char>,
    words: Seq<u32>,
)
    requires
        spec_source_hash(stored_source) != spec_source_hash(current_source),
    ensures
        !spec_cache_hit(
            m.insert(file, (spec_source_hash(stored_source), words)),
            file,
            current_source,
        ),
{
}

} // verus!
