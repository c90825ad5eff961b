//! Performance profiling utilities.
//!
//! The profiler times named sections. Section timing is gated on the
//! performance-monitoring switch in the debug configuration: with
//! monitoring off, starting and ending sections leaves the profiler
//! untouched, so profiling costs nothing in ordinary runs.

use vstd::prelude::*;

use crate::config::debug;
use crate::stage::str_eq;

verus! {

/// Relies on `std::time::Instant` as an opaque reading of the
/// monotonic clock; nothing is assumed about its value.
#[verifier::external_type_specification]
#[verifier::external_body]
pub struct ExInstant(std::time::Instant);

/// Relies on `std::time::Instant::now` for the current reading of the
/// monotonic clock; nothing is assumed about the value returned.
#[verifier::external_body]
fn instant_now() -> std::time::Instant {
    std::time::Instant::now()
}

/// Relies on `std::time::Instant::elapsed` for the nanoseconds since
/// `start`, truncated to 64 bits; nothing is assumed about the value.
#[verifier::external_body]
fn elapsed_nanos(start: &std::time::Instant) -> u64 {
    start.elapsed().as_nanos() as u64
}

struct Section {
    name: String,
    times: Vec<u64>,
}

struct Running {
    name: String,
    started: std::time::Instant,
}

/// Saturating addition of recorded durations.
pub open spec fn spec_sat_add(a: u64, b: u64) -> u64 {
    if a + b > u64::MAX {
        u64::MAX
    } else {
        (a + b) as u64
    }
}

/// Saturating sum of recorded durations, in order.
pub open spec fn spec_sum_sat(ts: Seq<u64>) -> u64
    decreases ts.len(),
{
    if ts.len() == 0 {
        0
    } else {
        spec_sat_add(spec_sum_sat(ts.drop_last()), ts.last())
    }
}

spec fn spec_find_section(s: Seq<Section>, name: Seq<char>) -> Option<Seq<u64>>
    decreases s.len(),
{
    if s.len() == 0 {
        None
    } else if s[0].name@ == name {
        Some(s[0].times@)
    } else {
        spec_find_section(s.drop_first(), name)
    }
}

/// Times named sections of the frame, while performance monitoring is
/// switched on in the debug configuration.
pub struct Profiler {
    sections: Vec<Section>,
    running_sections: Vec<Running>,
}

impl Profiler {
    /// The recorded times of a section, first match by name.
    pub closed spec fn section_times(&self, name: Seq<char>) -> Option<Seq<u64>> {
        spec_find_section(self.sections@, name)
    }

    /// Number of sections with recorded times.
    pub closed spec fn section_count(&self) -> nat {
        self.sections@.len()
    }

    /// Number of sections currently being timed.
    pub closed spec fn running_count(&self) -> nat {
        self.running_sections@.len()
    }

    /// A profiler with no recorded and no running sections.
    pub fn new() -> (r: Profiler)
        ensures
            r.section_count() == 0,
            r.running_count() == 0,
    {
        Profiler { sections: Vec::new(), running_sections: Vec::new() }
    }

    /// Begin timing a section. With performance monitoring off, this
    /// records nothing.
    pub fn start_section(&mut self, name: &str)
        ensures
            !debug::ENABLE_PERFORMANCE_MONITORING ==> *final(self) == *old(self),
    {
        if debug::ENABLE_PERFORMANCE_MONITORING {
            self.running_sections.push(
                Running { name: name.to_owned(), started: instant_now() },
            );
        }
    }

    /// End timing a section, recording the elapsed time under its
    /// name. With performance monitoring off, this records nothing.
    pub fn end_section(&mut self, name: &str)
        ensures
            !debug::ENABLE_PERFORMANCE_MONITORING ==> *final(self) == *old(self),
    {
        if debug::ENABLE_PERFORMANCE_MONITORING {
            let mut found: Option<usize> = None;
            let mut i: usize = 0;
            let n = self.running_sections.len();
            while i < n
                invariant
                    n == self.running_sections@.len(),
                    0 <= i <= n,
                    match found {
                        Some(j) => j < n,
                        None => true,
                    },
                decreases n - i,
            {
                if found.is_none() && str_eq(self.running_sections[i].name.as_str(), name) {
                    found = Some(i);
                }
                i += 1;
            }
            match found {
                Some(j) => {
                    let running = self.running_sections.remove(j);
                    let duration = elapsed_nanos(&running.started);
                    let mut k: usize = 0;
                    let m = self.sections.len();
                    let mut target: Option<usize> = None;
                    while k < m
                        invariant
                            m == self.sections@.len(),
                            0 <= k <= m,
                            match target {
                                Some(t) => t < m,
                                None => true,
                            },
                        decreases m - k,
                    {
                        if target.is_none() && str_eq(self.sections[k].name.as_str(), name) {
                            target = Some(k);
                        }
                        k += 1;
                    }
                    match target {
                        Some(t) => {
                            let mut section = self.sections.remove(t);
                            section.times.push(duration);
                            self.sections.push(section);
                        },
                        None => {
                            let mut times: Vec<u64> = Vec::new();
                            times.push(duration);
                            self.sections.push(Section { name: running.name, times });
                        },
                    }
                },
                None => {},
            }
        }
    }

    /// The average recorded time of a section in nanoseconds, or
    /// nothing when the section is unknown or has no recorded times.
    pub fn get_average_time(&self, name: &str) -> (r: Option<u64>)
        ensures
            match self.section_times(name@) {
                None => r is None,
                Some(ts) => if ts.len() == 0 {
                    r is None
                } else {
                    r == Some((spec_sum_sat(ts) / (ts.len() as u64)) as u64)
                },
            },
    {
        let mut i: usize = 0;
        let n = self.sections.len();
        proof {
            assert(self.sections@.skip(0) =~= self.sections@);
        }
        while i < n
            invariant
                n == self.sections@.len(),
                0 <= i <= n,
                spec_find_section(self.sections@, name@) == spec_find_section(
                    self.sections@.skip(i as int),
                    name@,
                ),
            decreases n - i,
        {
            proof {
                assert(self.sections@.skip(i as int)[0] == self.sections@[i as int]);
                assert(self.sections@.skip(i as int).drop_first() =~= self.sections@.skip(
                    i + 1,
                ));
            }
            if str_eq(self.sections[i].name.as_str(), name) {
                let times = &self.sections[i].times;
                let count = times.len();
                if count == 0 {
                    return None;
                }
                let mut sum: u64 = 0;
                let mut j: usize = 0;
                while j < count
                    invariant
                        count == times@.len(),
                        0 <= j <= count,
                        sum == spec_sum_sat(times@.take(j as int)),
                    decreases count - j,
                {
                    proof {
                        assert(times@.take(j + 1).drop_last() =~= times@.take(j as int));
                        assert(times@.take(j + 1).last() == times@[j as int]);
                    }
                    let t = times[j];
                    sum = if sum <= u64::MAX - t {
                        sum + t
                    } else {
                        u64::MAX
                    };
                    j += 1;
                }
                proof {
                    assert(times@.take(count as int) =~= times@);
                }
                return Some(sum / (count as u64));
            }
            i += 1;
        }
        proof {
            assert(self.sections@.skip(n as int) =~= Seq::<Section>::empty());
        }
        None
    }

    /// The profile summary: one line per section, with its name, its
    /// average time in nanoseconds, and its sample count. With
    /// performance monitoring off the summary is empty.
    pub fn print_summary(&self) -> (r: Vec<(String, u64, usize)>)
        ensures
            !debug::ENABLE_PERFORMANCE_MONITORING ==> r@.len() == 0,
    {
        let mut out: Vec<(String, u64, usize)> = Vec::new();
        if debug::ENABLE_PERFORMANCE_MONITORING {
            let mut i: usize = 0;
            let n = self.sections.len();
            while i < n
                invariant
                    n == self.sections@.len(),
                    0 <= i <= n,
                decreases n - i,
            {
                match self.get_average_time(self.sections[i].name.as_str()) {
                    Some(avg) => {
                        out.push(
                            (self.sections[i].name.clone(), avg, self.sections[i].times.len()),
                        );
                    },
                    None => {},
                }
                i += 1;
            }
        }
        out
    }
}

/// Times one scope: created at its start, handed back to the profiler
/// at its end.
pub struct ScopedProfiler {
    name: String,
}

impl ScopedProfiler {
    /// The name the scope is timed under.
    pub closed spec fn spec_name(&self) -> Seq<char> {
        self.name@
    }

    /// Begin timing a scope under `name`.
    pub fn new(profiler: &mut Profiler, name: &str) -> (r: ScopedProfiler)
        ensures
            r.spec_name() == name@,
            !debug::ENABLE_PERFORMANCE_MONITORING ==> *final(profiler) == *old(profiler),
    {
        profiler.start_section(name);
        ScopedProfiler { name: name.to_owned() }
    }

    /// End the scope, recording its elapsed time.
    pub fn finish(self, profiler: &mut Profiler)
        ensures
            !debug::ENABLE_PERFORMANCE_MONITORING ==> *final(profiler) == *old(profiler),
    {
        profiler.end_section(self.name.as_str());
    }
}

} // verus!
