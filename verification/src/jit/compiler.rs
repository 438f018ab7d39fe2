//! Events, statuses and statistics of the just-in-time compiler.

use vstd::prelude::*;
use vstd::string::*;

verus! {

/// Why a function was compiled.
#[derive(Debug, Clone, PartialEq, Eq, Structural)]
pub enum CompilationReason {
    /// Its call count reached the threshold.
    CallCountThreshold,
    /// Its execution time reached the threshold.
    TimeThreshold,
    /// Its sliding-window average time reached the threshold.
    WindowAverageThreshold,
    /// The priority queue scheduled it.
    PriorityScheduled,
}

/// An event of the just-in-time compiler.
#[derive(Debug)]
pub enum JITEvent {
    /// Compilation of a function started.
    CompilationStarted {
        /// The function.
        function_name: String,
        /// Its complexity.
        complexity: usize,
        /// Why it is compiled.
        reason: CompilationReason,
    },
    /// Compilation of a function finished.
    CompilationCompleted {
        /// The function.
        function_name: String,
        /// How long it took.
        duration: std::time::Duration,
        /// The optimization level used.
        optimization_level: String,
    },
    /// Compilation of a function failed.
    CompilationFailed {
        /// The function.
        function_name: String,
        /// The error.
        error: String,
    },
    /// A hot function was detected.
    HotFunctionDetected {
        /// The function.
        function_name: String,
        /// Its call count.
        call_count: usize,
        /// Its average time in microseconds.
        avg_time: u64,
    },
}

/// Receives the compiler's events; implemented by the compiler's users.
pub trait JITEventCallback {
    /// Handles `event`.
    fn on_event(&self, event: &JITEvent);
}

/// Compilation status of a function.
#[derive(Debug, Clone, Copy, PartialEq, Eq, Structural)]
pub enum CompileStatus {
    /// Not compiled.
    NotCompiled,
    /// Being compiled.
    Compiling,
    /// Compiled.
    Compiled,
    /// Compilation failed.
    Failed,
}

/// Counters of the just-in-time compiler.
#[derive(Debug)]
pub struct JITStatistics {
    /// Compilations.
    pub total_compilations: usize,
    /// Successful compilations.
    pub successful_compilations: usize,
    /// Failed compilations.
    pub failed_compilations: usize,
    /// Total compilation time, in nanoseconds.
    pub total_compile_time: u128,
    /// Hot functions.
    pub hot_function_count: usize,
    /// Compiled functions.
    pub compiled_function_count: usize,
    /// Calls.
    pub total_calls: usize,
    /// Total execution time, in nanoseconds.
    pub total_execution_time: u128,
    /// Cache hits.
    pub cache_hits: usize,
    /// Cache misses.
    pub cache_misses: usize,
}

impl JITStatistics {
    /// Every counter zero.
    pub fn new() -> (s: Self)
        ensures
            s.total_compilations == 0,
            s.successful_compilations == 0,
            s.failed_compilations == 0,
            s.hot_function_count == 0,
            s.compiled_function_count == 0,
            s.total_calls == 0,
            s.cache_hits == 0,
            s.cache_misses == 0,
            s.total_compile_time == 0,
            s.total_execution_time == 0,
    {
        JITStatistics {
            total_compilations: 0,
            successful_compilations: 0,
            failed_compilations: 0,
            total_compile_time: 0,
            hot_function_count: 0,
            compiled_function_count: 0,
            total_calls: 0,
            total_execution_time: 0,
            cache_hits: 0,
            cache_misses: 0,
        }
    }

    /// The average compilation time in nanoseconds: the total divided by
    /// the number of compilations (the count converted to `u32`), rounded
    /// down, or zero without compilations.
    pub fn avg_compile_time(&self) -> (avg: u128)
        requires
            self.total_compilations == 0 || self.total_compilations as u32 != 0,
        ensures
            avg == if self.total_compilations == 0 {
                0
            } else {
                self.total_compile_time / (self.total_compilations as u32 as u128)
            },
    {
        if self.total_compilations == 0 {
            return 0;
        }
        self.total_compile_time / (self.total_compilations as u32 as u128)
    }
}

impl Default for JITStatistics {
    fn default() -> (s: Self)
        ensures
            s.total_compilations == 0,
            s.successful_compilations == 0,
            s.failed_compilations == 0,
            s.hot_function_count == 0,
            s.compiled_function_count == 0,
            s.total_calls == 0,
            s.cache_hits == 0,
            s.cache_misses == 0,
            s.total_compile_time == 0,
            s.total_execution_time == 0,
    {
        Self::new()
    }
}

/// The sum of `s`.
pub open spec fn sum_of(s: Seq<u64>) -> int
    decreases s.len(),
{
    if s.len() == 0 { 0 } else { sum_of(s.drop_last()) + s.last() }
}

/// The average of the recent execution times, rounded down (zero for an
/// empty window).
pub open spec fn window_average_of(window: Seq<u64>) -> int {
    if window.len() == 0 { 0 } else { sum_of(window) / (window.len() as int) }
}

/// Average of the recent execution times, rounded down; zero for an empty
/// window.
pub fn window_average(window: &[u64]) -> (avg: u64)
    requires
        sum_of(window@) <= u64::MAX,
    ensures
        avg == window_average_of(window@),
{
    if window.len() == 0 {
        return 0;
    }
    let mut sum: u64 = 0;
    let mut i: usize = 0;
    while i < window.len()
        invariant
            i <= window@.len(),
            sum == sum_of(window@.subrange(0, i as int)),
            sum_of(window@) <= u64::MAX,
        decreases window@.len() - i,
    {
        proof {
            let next = window@.subrange(0, i + 1);
            assert(next.drop_last() =~= window@.subrange(0, i as int));
            lemma_sum_prefix_bounded(window@, i + 1);
        }
        sum = sum + window[i];
        i = i + 1;
    }
    proof {
        assert(window@.subrange(0, window@.len() as int) =~= window@);
    }
    sum / (window.len() as u64)
}

/// A prefix never sums to more than the whole.
proof fn lemma_sum_prefix_bounded(s: Seq<u64>, k: int)
    requires
        0 <= k <= s.len(),
    ensures
        sum_of(s.subrange(0, k)) <= sum_of(s),
    decreases s.len() - k,
{
    if k < s.len() {
        lemma_sum_prefix_bounded(s, k + 1);
        assert(s.subrange(0, k + 1).drop_last() =~= s.subrange(0, k));
    } else {
        assert(s.subrange(0, k) =~= s);
    }
}

/// The decision for one more call of a function: compile it when it is
/// neither compiled nor being compiled and its call count reaches the
/// call threshold, or its average or recent-window average time reaches
/// the time threshold; the reason is the first of these that holds.
pub open spec fn decision_of(
    call_count: usize,
    avg_time: u64,
    window: Seq<u64>,
    status: CompileStatus,
    call_threshold: usize,
    time_threshold: u64,
) -> Option<CompilationReason> {
    if status == CompileStatus::Compiling || status == CompileStatus::Compiled {
        None
    } else if call_count >= call_threshold {
        Some(CompilationReason::CallCountThreshold)
    } else if avg_time >= time_threshold {
        Some(CompilationReason::TimeThreshold)
    } else if window_average_of(window) >= time_threshold {
        Some(CompilationReason::WindowAverageThreshold)
    } else {
        None
    }
}

/// Decides whether a function with these counters is compiled now, and
/// why, given the adaptive thresholds.
pub fn compilation_decision(
    call_count: usize,
    avg_time: u64,
    time_window: &[u64],
    status: CompileStatus,
    call_threshold: usize,
    time_threshold: u64,
) -> (r: Option<CompilationReason>)
    requires
        sum_of(time_window@) <= u64::MAX,
    ensures
        r == decision_of(call_count, avg_time, time_window@, status, call_threshold, time_threshold),
{
    let window_avg = window_average(time_window);
    if status == CompileStatus::Compiling || status == CompileStatus::Compiled {
        None
    } else if call_count >= call_threshold {
        Some(CompilationReason::CallCountThreshold)
    } else if avg_time >= time_threshold {
        Some(CompilationReason::TimeThreshold)
    } else if window_avg >= time_threshold {
        Some(CompilationReason::WindowAverageThreshold)
    } else {
        None
    }
}

/// A compiled function, or one being compiled, is never scheduled again.
pub proof fn lemma_compiled_not_recompiled(
    call_count: usize,
    avg_time: u64,
    window: Seq<u64>,
    status: CompileStatus,
    call_threshold: usize,
    time_threshold: u64,
)
    requires
        status == CompileStatus::Compiling || status == CompileStatus::Compiled,
    ensures
        decision_of(call_count, avg_time, window, status, call_threshold, time_threshold) is None,
{
}

/// What the compiler knows of a function's runs.
#[derive(Debug)]
pub struct HotFunctionInfo {
    /// Calls.
    pub call_count: usize,
    /// Total execution time, in microseconds.
    pub total_time: u64,
    /// Average execution time, in microseconds.
    pub avg_time: u64,
    /// The last execution time, in microseconds.
    pub last_time: u64,
    /// The last ten execution times, oldest first.
    pub time_window: Vec<u64>,
    /// Code complexity.
    pub complexity: usize,
    /// Memory accesses.
    pub memory_access_frequency: usize,
    /// Compilation status.
    pub compile_status: CompileStatus,
}

/// A function's profile as a value.
pub struct HotView {
    /// Calls.
    pub call_count: usize,
    /// Total execution time.
    pub total_time: u64,
    /// Average execution time.
    pub avg_time: u64,
    /// The last execution time.
    pub last_time: u64,
    /// The recent execution times, oldest first.
    pub time_window: Seq<u64>,
    /// Code complexity.
    pub complexity: usize,
    /// Memory accesses.
    pub memory_access_frequency: usize,
    /// Compilation status.
    pub compile_status: CompileStatus,
}

impl View for HotFunctionInfo {
    type V = HotView;

    open spec fn view(&self) -> HotView {
        HotView {
            call_count: self.call_count,
            total_time: self.total_time,
            avg_time: self.avg_time,
            last_time: self.last_time,
            time_window: self.time_window@,
            complexity: self.complexity,
            memory_access_frequency: self.memory_access_frequency,
            compile_status: self.compile_status,
        }
    }
}

/// The profile of a function not seen before: no calls, no time,
/// complexity one, not compiled.
pub open spec fn fresh_profile() -> HotView {
    HotView {
        call_count: 0,
        total_time: 0,
        avg_time: 0,
        last_time: 0,
        time_window: Seq::empty(),
        complexity: 1,
        memory_access_frequency: 0,
        compile_status: CompileStatus::NotCompiled,
    }
}

/// Whether a profile is consistent: its recent times hold at most ten
/// entries and add up to no more than its total time.
pub open spec fn profile_wf(h: HotView) -> bool {
    h.time_window.len() <= 10 && sum_of(h.time_window) <= h.total_time
}

impl Default for HotFunctionInfo {
    fn default() -> (h: Self)
        ensures
            h@ == fresh_profile(),
    {
        HotFunctionInfo {
            call_count: 0,
            total_time: 0,
            avg_time: 0,
            last_time: 0,
            time_window: Vec::new(),
            complexity: 1,
            memory_access_frequency: 0,
            compile_status: CompileStatus::NotCompiled,
        }
    }
}

/// The profile table as values: each function's name and profile.
pub open spec fn table_view(t: Seq<(String, HotFunctionInfo)>) -> Seq<(Seq<char>, HotView)> {
    t.map_values(|e: (String, HotFunctionInfo)| (e.0@, e.1@))
}

/// Whether each name occurs once in the table and each profile is
/// consistent.
pub open spec fn table_wf(t: Seq<(Seq<char>, HotView)>) -> bool {
    &&& forall|i: int, j: int| 0 <= i < j < t.len() ==> #[trigger] t[i].0 != #[trigger] t[j].0
    &&& forall|i: int| 0 <= i < t.len() ==> profile_wf(#[trigger] t[i].1)
}

/// Whether the table has a profile for `name`.
pub open spec fn has_profile(t: Seq<(Seq<char>, HotView)>, name: Seq<char>) -> bool {
    exists|i: int| 0 <= i < t.len() && #[trigger] t[i].0 == name
}

/// Where the table holds `name`'s profile (its length when it holds none).
pub open spec fn profile_index(t: Seq<(Seq<char>, HotView)>, name: Seq<char>) -> int {
    if has_profile(t, name) {
        choose|i: int| 0 <= i < t.len() && #[trigger] t[i].0 == name
    } else {
        t.len() as int
    }
}

/// `name`'s profile, or a fresh one.
pub open spec fn profile_of(t: Seq<(Seq<char>, HotView)>, name: Seq<char>) -> HotView {
    if has_profile(t, name) { t[profile_index(t, name)].1 } else { fresh_profile() }
}

/// The table with `name`'s profile set to `h` (added at the end when the
/// table held none).
pub open spec fn with_profile(t: Seq<(Seq<char>, HotView)>, name: Seq<char>, h: HotView) -> Seq<(Seq<char>, HotView)> {
    if has_profile(t, name) { t.update(profile_index(t, name), (name, h)) } else { t.push((name, h)) }
}

/// The thresholds that `f` gives for a complexity and a memory-access
/// count: the calls and the microseconds at which a function is compiled.
pub open spec fn thresholds_of<F: Fn(usize, usize) -> (usize, u64)>(f: F, complexity: usize, memory: usize) -> (usize, u64) {
    choose|r: (usize, u64)| call_ensures(f, (complexity, memory), r)
}

/// Whether `e` reports `name` as a hot function with these counters.
pub open spec fn reports_hot(e: JITEvent, name: Seq<char>, call_count: usize, avg_time: u64) -> bool {
    e matches JITEvent::HotFunctionDetected { function_name, call_count: c, avg_time: a }
        && function_name@ == name && c == call_count && a == avg_time
}

/// Whether `e` reports that `name` starts compiling, with its complexity
/// and the reason.
pub open spec fn reports_start(e: JITEvent, name: Seq<char>, complexity: usize, reason: CompilationReason) -> bool {
    e matches JITEvent::CompilationStarted { function_name, complexity: c, reason: r }
        && function_name@ == name && c == complexity && r == reason
}

/// The recent times after one more run of `t`: appended, and the oldest
/// dropped beyond ten.
pub open spec fn window_after(w: Seq<u64>, t: u64) -> Seq<u64> {
    if w.len() + 1 > 10 { w.push(t).subrange(1, w.len() + 1 as int) } else { w.push(t) }
}

/// The total of a sequence is its first element plus the total of the rest.
proof fn lemma_sum_first(s: Seq<u64>)
    requires
        s.len() > 0,
    ensures
        sum_of(s) == s[0] + sum_of(s.subrange(1, s.len() as int)),
    decreases s.len(),
{
    if s.len() > 1 {
        let d = s.drop_last();
        let r = s.subrange(1, s.len() as int);
        lemma_sum_first(d);
        assert(d.subrange(1, d.len() as int) =~= r.drop_last());
        assert(r.last() == s.last());
        assert(d[0] == s[0]);
        assert(sum_of(r) == sum_of(r.drop_last()) + r.last());
        assert(sum_of(s) == sum_of(d) + s.last());
    } else {
        assert(s.subrange(1, s.len() as int) =~= Seq::<u64>::empty());
        assert(s.drop_last().len() == 0);
        assert(sum_of(s) == sum_of(s.drop_last()) + s.last());
        assert(sum_of(s.subrange(1, s.len() as int)) == 0);
    }
}

/// Reading a profile back gives what was last stored for that name, and
/// storing one name's profile leaves every other name's as it was.
pub proof fn lemma_profile_after_set(t: Seq<(Seq<char>, HotView)>, name: Seq<char>, h: HotView, other: Seq<char>)
    requires
        table_wf(t),
    ensures
        profile_of(with_profile(t, name, h), name) == h,
        other != name ==> profile_of(with_profile(t, name, h), other) == profile_of(t, other),
{
    let u = with_profile(t, name, h);
    if has_profile(t, name) {
        let k = profile_index(t, name);
        assert(u[k].0 == name);
        assert(has_profile(u, name));
        let k2 = profile_index(u, name);
        if k2 != k {
            assert(u[k2].0 == t[k2].0);
            if k2 < k { assert(t[k2].0 != t[k].0); } else { assert(t[k].0 != t[k2].0); }
        }
    } else {
        let k = t.len() as int;
        assert(u[k].0 == name);
        assert(has_profile(u, name));
        let k2 = profile_index(u, name);
        if k2 != k {
            assert(u[k2].0 == t[k2].0);
        }
    }
    if other != name {
        if has_profile(t, other) {
            let j = profile_index(t, other);
            assert(u[j].0 == other);
            assert(has_profile(u, other));
            let j2 = profile_index(u, other);
            if j2 != j {
                assert(u[j2].0 == t[j2].0);
                if j2 < j { assert(t[j2].0 != t[j].0); } else { assert(t[j].0 != t[j2].0); }
            }
        } else {
            if has_profile(u, other) {
                let j2 = profile_index(u, other);
                assert(u[j2].0 == t[j2].0);
            }
        }
    }
}

/// The profiles of the functions a program calls, the compiler's counters
/// and the events not yet handed to the callbacks.
pub struct JITCompiler {
    /// Each function's name and profile.
    pub hot_functions: Vec<(String, HotFunctionInfo)>,
    /// The counters.
    pub statistics: JITStatistics,
    /// Events raised and not yet taken.
    pub events: Vec<JITEvent>,
}

impl JITCompiler {
    /// The profiles as values.
    pub open spec fn table(&self) -> Seq<(Seq<char>, HotView)> {
        table_view(self.hot_functions@)
    }

    /// No profiles, every counter zero, no events.
    pub fn new() -> (c: Self)
        ensures
            c.table() == Seq::<(Seq<char>, HotView)>::empty(),
            table_wf(c.table()),
            c.statistics.total_calls == 0,
            c.statistics.cache_hits == 0,
            c.statistics.cache_misses == 0,
            c.events@.len() == 0,
    {
        let c = JITCompiler { hot_functions: Vec::new(), statistics: JITStatistics::new(), events: Vec::new() };
        assert(c.table() =~= Seq::<(Seq<char>, HotView)>::empty());
        c
    }

    /// Where `name`'s profile is.
    fn find(&self, name: &str) -> (i: usize)
        requires
            table_wf(self.table()),
        ensures
            i as int == profile_index(self.table(), name@),
            i <= self.hot_functions@.len(),
    {
        let key = String::from_str(name);
        let ghost t = self.table();
        let mut i: usize = 0;
        while i < self.hot_functions.len()
            invariant
                i <= self.hot_functions@.len(),
                key@ == name@,
                t == self.table(),
                table_wf(t),
                t.len() == self.hot_functions@.len(),
                forall|j: int| 0 <= j < i ==> t[j].0 != name@,
            decreases self.hot_functions@.len() - i,
        {
            assert(t[i as int].0 == self.hot_functions@[i as int].0@);
            if self.hot_functions[i].0 == key {
                proof {
                    assert(t[i as int].0 == name@);
                    assert(has_profile(t, name@));
                    let k = profile_index(t, name@);
                    assert(0 <= k < t.len() && t[k].0 == name@);
                    if k != i as int {
                        if k < i { assert(t[k].0 != t[i as int].0); } else { assert(t[i as int].0 != t[k].0); }
                    }
                }
                return i;
            }
            i = i + 1;
        }
        proof {
            assert(!has_profile(t, name@));
        }
        i
    }

    /// Sets the profile at `i` to `info`.
    fn replace_at(&mut self, i: usize, info: HotFunctionInfo)
        requires
            i < old(self).hot_functions@.len(),
        ensures
            final(self).table() == old(self).table().update(i as int, (old(self).table()[i as int].0, info@)),
            final(self).hot_functions@.len() == old(self).hot_functions@.len(),
            final(self).statistics == old(self).statistics,
            final(self).events@ == old(self).events@,
    {
        let (key, _) = self.hot_functions.remove(i);
        self.hot_functions.insert(i, (key, info));
        assert(self.table() =~= old(self).table().update(i as int, (old(self).table()[i as int].0, info@)));
    }

    /// A copy of `name`'s profile, or a fresh one.
    fn profile_copy(&self, name: &str) -> (r: (usize, HotFunctionInfo))
        requires
            table_wf(self.table()),
        ensures
            r.0 as int == profile_index(self.table(), name@),
            r.1@ == profile_of(self.table(), name@),
    {
        let i = self.find(name);
        if i < self.hot_functions.len() {
            let h = &self.hot_functions[i].1;
            assert(self.table()[i as int].1 == h@);
            let mut w: Vec<u64> = Vec::new();
            let mut k: usize = 0;
            while k < h.time_window.len()
                invariant
                    k <= h.time_window@.len(),
                    w@ == h.time_window@.take(k as int),
                decreases h.time_window@.len() - k,
            {
                w.push(h.time_window[k]);
                assert(w@ =~= h.time_window@.take(k + 1));
                k = k + 1;
            }
            assert(h.time_window@.take(k as int) =~= h.time_window@);
            (i, HotFunctionInfo {
                call_count: h.call_count,
                total_time: h.total_time,
                avg_time: h.avg_time,
                last_time: h.last_time,
                time_window: w,
                complexity: h.complexity,
                memory_access_frequency: h.memory_access_frequency,
                compile_status: h.compile_status,
            })
        } else {
            (i, HotFunctionInfo::default())
        }
    }

    /// Stores `info` as `name`'s profile, at `i`, where `find` put it.
    fn store(&mut self, i: usize, name: &str, info: HotFunctionInfo)
        requires
            table_wf(old(self).table()),
            i as int == profile_index(old(self).table(), name@),
            profile_wf(info@),
        ensures
            final(self).table() == with_profile(old(self).table(), name@, info@),
            table_wf(final(self).table()),
            final(self).statistics == old(self).statistics,
            final(self).events@ == old(self).events@,
    {
        let ghost t = old(self).table();
        if i < self.hot_functions.len() {
            proof {
                assert(has_profile(t, name@));
                let k = profile_index(t, name@);
                assert(t[k].0 == name@);
            }
            self.replace_at(i, info);
        } else {
            proof {
                if has_profile(t, name@) {
                    let k = choose|k: int| 0 <= k < t.len() && #[trigger] t[k].0 == name@;
                }
            }
            self.hot_functions.push((String::from_str(name), info));
            assert(self.table() =~= t.push((name@, info@)));
        }
        proof {
            let u = self.table();
            assert forall|a: int, b: int| 0 <= a < b < u.len() implies #[trigger] u[a].0 != #[trigger] u[b].0 by {
                if has_profile(t, name@) {
                    let k = profile_index(t, name@);
                    if a == k { assert(t[b].0 != t[k].0); } else if b == k { assert(t[a].0 != t[k].0); } else { assert(t[a].0 != t[b].0); }
                } else {
                    if b == t.len() { assert(t[a].0 != name@); } else { assert(t[a].0 != t[b].0); }
                }
            }
            assert forall|a: int| 0 <= a < u.len() implies profile_wf(#[trigger] u[a].1) by {
                if a < t.len() && !(has_profile(t, name@) && a == profile_index(t, name@)) { assert(u[a].1 == t[a].1); }
            }
        }
    }


    /// One more call of `function_name`: counts it in its profile (made
    /// fresh for a function not seen before) and in the call counter. A
    /// compiled function is a cache hit and is not compiled again;
    /// otherwise it is a cache miss and is compiled when `decision_of`
    /// says so, with the thresholds that `thresholds` gives for its
    /// complexity and memory accesses; then a hot-function event and a
    /// compilation-start event are raised.
    pub fn should_compile<F: Fn(usize, usize) -> (usize, u64)>(&mut self, function_name: &str, thresholds: F) -> (b: bool)
        requires
            table_wf(old(self).table()),
            profile_of(old(self).table(), function_name@).call_count < usize::MAX,
            old(self).statistics.total_calls < usize::MAX,
            old(self).statistics.cache_hits < usize::MAX,
            old(self).statistics.cache_misses < usize::MAX,
            forall|c: usize, m: usize| call_requires(thresholds, (c, m)),
            forall|c: usize, m: usize, r1: (usize, u64), r2: (usize, u64)|
                call_ensures(thresholds, (c, m), r1) && call_ensures(thresholds, (c, m), r2) ==> r1 == r2,
        ensures
            ({
                let h0 = profile_of(old(self).table(), function_name@);
                let h = HotView { call_count: (h0.call_count + 1) as usize, ..h0 };
                let th = thresholds_of(thresholds, h.complexity, h.memory_access_frequency);
                let d = decision_of(h.call_count, h.avg_time, h.time_window, h.compile_status, th.0, th.1);
                let compiled = h.compile_status == CompileStatus::Compiled;
                let n = old(self).events@.len();
                &&& final(self).table() == with_profile(old(self).table(), function_name@, h)
                &&& b == d is Some
                &&& final(self).statistics == (JITStatistics {
                    total_calls: (old(self).statistics.total_calls + 1) as usize,
                    cache_hits: if compiled { (old(self).statistics.cache_hits + 1) as usize } else { old(self).statistics.cache_hits },
                    cache_misses: if compiled { old(self).statistics.cache_misses } else { (old(self).statistics.cache_misses + 1) as usize },
                    ..old(self).statistics
                })
                &&& match d {
                    Some(reason) => {
                        &&& final(self).events@.len() == n + 2
                        &&& final(self).events@.take(n as int) == old(self).events@
                        &&& reports_hot(final(self).events@[n as int], function_name@, h.call_count, h.avg_time)
                        &&& reports_start(final(self).events@[n + 1 as int], function_name@, h.complexity, reason)
                    },
                    None => final(self).events@ == old(self).events@,
                }
            }),
            table_wf(final(self).table()),
    {
        let ghost t = self.table();
        let (i, mut info) = self.profile_copy(function_name);
        proof {
            if has_profile(t, function_name@) {
                let k = profile_index(t, function_name@);
                assert(profile_wf(t[k].1));
            }
        }
        info.call_count = info.call_count + 1;
        let count = info.call_count;
        let avg = info.avg_time;
        let complexity = info.complexity;
        let memory = info.memory_access_frequency;
        let status = info.compile_status;
        let compiled = status == CompileStatus::Compiled;
        let decision = if compiled {
            None
        } else {
            let th = thresholds(complexity, memory);
            proof {
                assert(call_ensures(thresholds, (complexity, memory), thresholds_of(thresholds, complexity, memory)));
            }
            compilation_decision(count, avg, &info.time_window, status, th.0, th.1)
        };
        self.store(i, function_name, info);
        self.statistics.total_calls = self.statistics.total_calls + 1;
        if compiled {
            self.statistics.cache_hits = self.statistics.cache_hits + 1;
        } else {
            self.statistics.cache_misses = self.statistics.cache_misses + 1;
        }
        match decision {
            Some(reason) => {
                self.events.push(JITEvent::HotFunctionDetected {
                    function_name: String::from_str(function_name),
                    call_count: count,
                    avg_time: avg,
                });
                self.events.push(JITEvent::CompilationStarted {
                    function_name: String::from_str(function_name),
                    complexity,
                    reason,
                });
                assert(self.events@.take(old(self).events@.len() as int) =~= old(self).events@);
                true
            },
            None => false,
        }
    }

    /// Counts a run of `function_name` that took `execution_time`
    /// microseconds: its total, average (total over calls, rounded down)
    /// and last time, and its recent times (the oldest dropped beyond
    /// ten), and the compiler's execution time. A function without a
    /// profile is left alone.
    pub fn record_execution_time(&mut self, function_name: &str, execution_time: u64)
        requires
            table_wf(old(self).table()),
            has_profile(old(self).table(), function_name@) ==> {
                let h = profile_of(old(self).table(), function_name@);
                &&& h.call_count > 0
                &&& h.total_time + execution_time <= u64::MAX
                &&& old(self).statistics.total_execution_time + execution_time * 1000 <= u128::MAX
            },
        ensures
            table_wf(final(self).table()),
            final(self).events@ == old(self).events@,
            has_profile(old(self).table(), function_name@) ==> {
                let h = profile_of(old(self).table(), function_name@);
                let total = (h.total_time + execution_time) as u64;
                &&& final(self).table() == with_profile(old(self).table(), function_name@, HotView {
                    total_time: total,
                    avg_time: (total / (h.call_count as u64)) as u64,
                    last_time: execution_time,
                    time_window: window_after(h.time_window, execution_time),
                    ..h
                })
                &&& final(self).statistics == (JITStatistics {
                    total_execution_time: (old(self).statistics.total_execution_time + execution_time * 1000) as u128,
                    ..old(self).statistics
                })
            },
            !has_profile(old(self).table(), function_name@) ==> {
                &&& final(self).table() == old(self).table()
                &&& final(self).statistics == old(self).statistics
            },
    {
        let ghost t = self.table();
        let (i, mut info) = self.profile_copy(function_name);
        if i < self.hot_functions.len() {
            let ghost h = info@;
            proof {
                let k = profile_index(t, function_name@);
                assert(0 <= k < t.len() && t[k].0 == function_name@);
                assert(profile_wf(t[k].1));
            }
            info.total_time = info.total_time + execution_time;
            info.avg_time = info.total_time / (info.call_count as u64);
            info.last_time = execution_time;
            info.time_window.push(execution_time);
            proof {
                assert(info.time_window@.drop_last() =~= h.time_window);
                assert(sum_of(info.time_window@) == sum_of(h.time_window) + execution_time);
            }
            if info.time_window.len() > 10 {
                let ghost full = info.time_window@;
                info.time_window.remove(0);
                proof {
                    lemma_sum_first(full);
                    assert(info.time_window@ =~= full.subrange(1, full.len() as int));
                }
            }
            assert(info.time_window@ =~= window_after(h.time_window, execution_time));
            self.store(i, function_name, info);
            self.statistics.total_execution_time = self.statistics.total_execution_time + (execution_time as u128) * 1000;
        } else {
            proof {
                if has_profile(t, function_name@) {
                    let k = choose|k: int| 0 <= k < t.len() && #[trigger] t[k].0 == function_name@;
                }
            }
        }
    }

    /// Sets `function_name`'s complexity, making it a fresh profile first
    /// where it has none.
    pub fn set_function_complexity(&mut self, function_name: &str, complexity: usize)
        requires
            table_wf(old(self).table()),
        ensures
            table_wf(final(self).table()),
            final(self).table() == with_profile(old(self).table(), function_name@,
                HotView { complexity, ..profile_of(old(self).table(), function_name@) }),
            final(self).statistics == old(self).statistics,
            final(self).events@ == old(self).events@,
    {
        let ghost t = self.table();
        let (i, mut info) = self.profile_copy(function_name);
        proof {
            if has_profile(t, function_name@) {
                let k = profile_index(t, function_name@);
                assert(profile_wf(t[k].1));
            }
        }
        info.complexity = complexity;
        self.store(i, function_name, info);
    }

    /// `function_name`'s compilation status; not compiled without a profile.
    pub fn get_compile_status(&self, function_name: &str) -> (s: CompileStatus)
        requires
            table_wf(self.table()),
        ensures
            s == profile_of(self.table(), function_name@).compile_status,
    {
        let i = self.find(function_name);
        if i < self.hot_functions.len() {
            self.hot_functions[i].1.compile_status
        } else {
            CompileStatus::NotCompiled
        }
    }

    /// Sets `function_name`'s compilation status; a function without a
    /// profile is left alone.
    pub fn set_compile_status(&mut self, function_name: &str, status: CompileStatus)
        requires
            table_wf(old(self).table()),
        ensures
            table_wf(final(self).table()),
            final(self).table() == if has_profile(old(self).table(), function_name@) {
                with_profile(old(self).table(), function_name@,
                    HotView { compile_status: status, ..profile_of(old(self).table(), function_name@) })
            } else {
                old(self).table()
            },
            final(self).statistics == old(self).statistics,
            final(self).events@ == old(self).events@,
    {
        let ghost t = self.table();
        let (i, mut info) = self.profile_copy(function_name);
        if i < self.hot_functions.len() {
            proof {
                let k = profile_index(t, function_name@);
                assert(0 <= k < t.len() && t[k].0 == function_name@);
                assert(profile_wf(t[k].1));
            }
            info.compile_status = status;
            self.store(i, function_name, info);
        } else {
            proof {
                if has_profile(t, function_name@) {
                    let k = choose|k: int| 0 <= k < t.len() && #[trigger] t[k].0 == function_name@;
                }
            }
        }
    }

    /// `function_name`'s profile, if it has one.
    pub fn get_hot_function_info(&self, function_name: &str) -> (r: Option<&HotFunctionInfo>)
        requires
            table_wf(self.table()),
        ensures
            r is Some <==> has_profile(self.table(), function_name@),
            r matches Some(h) ==> h@ == profile_of(self.table(), function_name@),
    {
        let i = self.find(function_name);
        if i < self.hot_functions.len() {
            proof {
                assert(self.table()[i as int].1 == self.hot_functions@[i as int].1@);
            }
            Some(&self.hot_functions[i].1)
        } else {
            proof {
                let t = self.table();
                if has_profile(t, function_name@) {
                    let k = choose|k: int| 0 <= k < t.len() && #[trigger] t[k].0 == function_name@;
                }
            }
            None
        }
    }

    /// The counters.
    pub fn get_statistics(&self) -> (s: &JITStatistics)
        ensures
            *s == self.statistics,
    {
        &self.statistics
    }

    /// Hands over the events raised so far, for the callbacks, and forgets
    /// them.
    pub fn take_events(&mut self) -> (e: Vec<JITEvent>)
        ensures
            e@ == old(self).events@,
            final(self).events@.len() == 0,
            final(self).table() == old(self).table(),
            final(self).statistics == old(self).statistics,
    {
        let mut e: Vec<JITEvent> = Vec::new();
        std::mem::swap(&mut e, &mut self.events);
        e
    }

}

} // verus!
