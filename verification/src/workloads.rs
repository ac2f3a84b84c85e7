use vstd::prelude::*;

use crate::bench::Options;

verus! {

/// The workloads the benchmark can run.
#[derive(Clone, Copy, Debug, PartialEq, Eq, Structural)]
pub enum WorkloadKind {
    ReadHeavy,
    Exchange,
    RapidGrow,
}

/// The kind that a workload name denotes, if any.
pub open spec fn spec_parse_workload(s: Seq<char>) -> Option<WorkloadKind> {
    if s == "ReadHeavy"@ {
        Some(WorkloadKind::ReadHeavy)
    } else if s == "Exchange"@ {
        Some(WorkloadKind::Exchange)
    } else if s == "RapidGrow"@ {
        Some(WorkloadKind::RapidGrow)
    } else {
        None
    }
}

/// The name of each workload kind.
pub open spec fn spec_kind_name(kind: WorkloadKind) -> Seq<char> {
    match kind {
        WorkloadKind::ReadHeavy => "ReadHeavy"@,
        WorkloadKind::Exchange => "Exchange"@,
        WorkloadKind::RapidGrow => "RapidGrow"@,
    }
}

impl WorkloadKind {
    /// The name of the workload kind, as it is given on the command line.
    pub fn as_str(&self) -> (name: &'static str)
        ensures
            name@ == spec_kind_name(*self),
    {
        match self {
            WorkloadKind::ReadHeavy => "ReadHeavy",
            WorkloadKind::Exchange => "Exchange",
            WorkloadKind::RapidGrow => "RapidGrow",
        }
    }
}

/// Reading the name of a workload kind gives back that kind, and no two
/// kinds share a name.
pub proof fn lemma_parse_name_round_trip(kind: WorkloadKind)
    ensures
        spec_parse_workload(spec_kind_name(kind)) == Some(kind),
{
    reveal_strlit("ReadHeavy");
    reveal_strlit("Exchange");
    reveal_strlit("RapidGrow");
    assert("Exchange"@.len() != "ReadHeavy"@.len());
    assert("RapidGrow"@[1] != "ReadHeavy"@[1]);
    assert("RapidGrow"@.len() != "Exchange"@.len());
}

impl std::str::FromStr for WorkloadKind {
    type Err = &'static str;

    fn from_str(s: &str) -> (r: Result<Self, Self::Err>)
        ensures
            match spec_parse_workload(s@) {
                Some(k) => r == Ok::<WorkloadKind, &'static str>(k),
                None => r is Err && r->Err_0@ == "unknown workload"@,
            },
    {
        let owned = s.to_owned();
        if owned == "ReadHeavy".to_owned() {
            Ok(WorkloadKind::ReadHeavy)
        } else if owned == "Exchange".to_owned() {
            Ok(WorkloadKind::Exchange)
        } else if owned == "RapidGrow".to_owned() {
            Ok(WorkloadKind::RapidGrow)
        } else {
            Err("unknown workload")
        }
    }
}


/// The share, in percent, that each kind of operation takes in a workload.
///
/// A mix that a benchmark can run has shares that add up to 100.
#[derive(Clone, Copy, Debug, PartialEq, Eq, Structural)]
pub struct Mix {
    pub read: u8,
    pub insert: u8,
    pub remove: u8,
    pub update: u8,
    pub upsert: u8,
}

impl Mix {
    /// The sum of all shares.
    pub open spec fn total(self) -> int {
        self.read + self.insert + self.remove + self.update + self.upsert
    }
}

/// The parameters of a benchmark workload.
///
/// `capacity_log2` is the base-two logarithm of the initial table capacity and
/// `prefill_percent` the share of that capacity that is filled before the
/// measured operations start.
#[derive(Clone, Copy, Debug, PartialEq, Eq, Structural)]
pub struct WorkloadSpec {
    pub threads: usize,
    pub mix: Mix,
    pub capacity_log2: u8,
    pub prefill_percent: u8,
}

/// A workload together with the number of operations sent in one request.
#[derive(Clone, Copy, Debug, PartialEq, Eq, Structural)]
pub struct WorkloadPlan {
    pub workload: WorkloadSpec,
    pub ops_per_req: usize,
}

/// The operation mix of each workload kind.
pub open spec fn spec_mix(kind: WorkloadKind) -> Mix {
    match kind {
        WorkloadKind::ReadHeavy => Mix { read: 98, insert: 1, remove: 1, update: 0, upsert: 0 },
        WorkloadKind::Exchange => Mix { read: 10, insert: 40, remove: 40, update: 10, upsert: 0 },
        WorkloadKind::RapidGrow => Mix { read: 5, insert: 80, remove: 5, update: 10, upsert: 0 },
    }
}

/// The prefilled share of the initial capacity, in percent, of each workload kind.
pub open spec fn spec_prefill_percent(kind: WorkloadKind) -> u8 {
    match kind {
        WorkloadKind::ReadHeavy => 80,
        WorkloadKind::Exchange => 80,
        WorkloadKind::RapidGrow => 0,
    }
}

/// The workload of a kind, run by `threads` threads on a table of initial
/// capacity `2^capacity`.
pub open spec fn spec_workload(kind: WorkloadKind, threads: u32, capacity: u8) -> WorkloadSpec {
    WorkloadSpec {
        threads: threads as usize,
        mix: spec_mix(kind),
        capacity_log2: capacity,
        prefill_percent: spec_prefill_percent(kind),
    }
}

/// Every workload the benchmark builds is runnable: its operation shares add
/// up to 100 percent and its prefilled share is at most the whole capacity.
pub proof fn lemma_workload_is_runnable(kind: WorkloadKind, threads: u32, capacity: u8)
    ensures
        spec_workload(kind, threads, capacity).mix.total() == 100,
        spec_workload(kind, threads, capacity).prefill_percent <= 100,
{
}

/// Every workload kind takes its thread count and its initial capacity from
/// the caller, for all kinds, thread counts and capacities.
pub proof fn lemma_workload_takes_caller_parameters(kind: WorkloadKind, threads: u32, capacity: u8)
    ensures
        spec_workload(kind, threads, capacity).capacity_log2 == capacity,
        spec_workload(kind, threads, capacity).threads == threads as usize,
        forall|other: u8| #[trigger] spec_workload(kind, threads, other).mix == spec_workload(kind, threads, capacity).mix,
{
}

/// What sets the workload kinds apart: a read-heavy workload is reads for
/// the most part and starts from a filled table; an exchange workload
/// inserts as often as it removes and starts from a filled table; a rapidly
/// growing workload inserts for the most part, removes less often than it
/// inserts, and starts from an empty table.
pub proof fn lemma_workload_shapes(threads: u32, capacity: u8)
    ensures
        ({
            let w = spec_workload(WorkloadKind::ReadHeavy, threads, capacity);
            &&& 2 * w.mix.read > w.mix.total()
            &&& w.prefill_percent > 0
        }),
        ({
            let w = spec_workload(WorkloadKind::Exchange, threads, capacity);
            &&& w.mix.insert == w.mix.remove
            &&& w.prefill_percent > 0
        }),
        ({
            let w = spec_workload(WorkloadKind::RapidGrow, threads, capacity);
            &&& 2 * w.mix.insert > w.mix.total()
            &&& w.mix.remove < w.mix.insert
            &&& w.prefill_percent == 0
        }),
{
}

/// A read-heavy workload: almost only reads, on a table filled to 80 percent.
pub fn read_heavy(threads: u32, capacity: u8) -> (w: WorkloadSpec)
    ensures
        w == spec_workload(WorkloadKind::ReadHeavy, threads, capacity),
        w.threads == threads as usize,
        w.capacity_log2 == capacity,
        w.mix.total() == 100,
        w.prefill_percent <= 100,
{
    let mix = Mix { read: 98, insert: 1, remove: 1, update: 0, upsert: 0 };
    WorkloadSpec { threads: threads as usize, mix, capacity_log2: capacity, prefill_percent: 80 }
}

/// A rapidly growing workload: mostly inserts, on a table that starts empty.
pub fn rapid_grow(threads: u32, capacity: u8) -> (w: WorkloadSpec)
    ensures
        w == spec_workload(WorkloadKind::RapidGrow, threads, capacity),
        w.threads == threads as usize,
        w.capacity_log2 == capacity,
        w.mix.total() == 100,
        w.prefill_percent <= 100,
{
    let mix = Mix { read: 5, insert: 80, remove: 5, update: 10, upsert: 0 };
    WorkloadSpec { threads: threads as usize, mix, capacity_log2: capacity, prefill_percent: 0 }
}

/// An exchange workload: as many inserts as removals, on a table filled to
/// 80 percent.
pub fn exchange(threads: u32, capacity: u8) -> (w: WorkloadSpec)
    ensures
        w == spec_workload(WorkloadKind::Exchange, threads, capacity),
        w.threads == threads as usize,
        w.capacity_log2 == capacity,
        w.mix.total() == 100,
        w.prefill_percent <= 100,
{
    let mix = Mix { read: 10, insert: 40, remove: 40, update: 10, upsert: 0 };
    WorkloadSpec { threads: threads as usize, mix, capacity_log2: capacity, prefill_percent: 80 }
}

/// The workload that the options select: its kind, run by the client
/// threads on a table of initial capacity `2^capacity`, with the number of
/// operations sent per request.
pub fn create(options: &Options) -> (plan: WorkloadPlan)
    ensures
        plan.workload == spec_workload(options.workload, options.client_threads as u32, options.capacity),
        plan.ops_per_req == options.ops_per_req as usize,
        plan.workload.threads == options.client_threads as usize,
        plan.workload.capacity_log2 == options.capacity,
        plan.workload.mix.total() == 100,
        plan.workload.prefill_percent <= 100,
{
    let threads = options.client_threads as u32;
    let workload = match options.workload {
        WorkloadKind::ReadHeavy => read_heavy(threads, options.capacity),
        WorkloadKind::Exchange => exchange(threads, options.capacity),
        WorkloadKind::RapidGrow => rapid_grow(threads, options.capacity),
    };
    WorkloadPlan { workload, ops_per_req: options.ops_per_req as usize }
}

} // verus!
