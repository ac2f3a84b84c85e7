use vstd::prelude::*;

use crate::workloads::WorkloadKind;

verus! {

/// The settings of a benchmark run, as given on the command line.
///
/// The multiple of the initial capacity that sets how many operations run is
/// a fraction and is kept by the command-line front end, which hands it to the
/// workload runner directly.
#[derive(Clone, Debug)]
pub struct Options {
    pub workload: WorkloadKind,
    pub capacity: u8,
    pub times: u8,
    pub ops_per_req: u8,
    pub server_threads: u8,
    pub maptype: String,
    pub client_threads: u8,
    pub use_std_hasher: bool,
    pub gc_sleep_ms: u64,
    pub skip: Option<Vec<String>>,
    pub complete_slow: bool,
    pub csv: bool,
    pub csv_no_headers: bool,
}

/// The parameters handed to a map that lives in shared memory.
pub open spec fn spec_shared_memory_params(options: Options) -> Seq<u8> {
    seq![options.capacity, options.client_threads, options.ops_per_req]
}

/// The parameters handed to a delegation server: those of a shared-memory
/// map, followed by the number of server threads.
pub open spec fn spec_delegation_params(options: Options) -> Seq<u8> {
    spec_shared_memory_params(options).push(options.server_threads)
}

/// The parameters handed to a delegation server begin with those handed to
/// a shared-memory map and add the number of server threads at the end.
pub proof fn lemma_delegation_params_extend_shared(options: Options)
    ensures
        spec_delegation_params(options).len() == spec_shared_memory_params(options).len() + 1,
        spec_delegation_params(options).take(3) == spec_shared_memory_params(options),
        spec_delegation_params(options).last() == options.server_threads,
{
    assert(spec_delegation_params(options).take(3) =~= spec_shared_memory_params(options));
}

/// Capacity, client threads and operations per request, in this order.
pub fn construct_shared_memory_params(options: &Options) -> (params: Vec<u8>)
    ensures
        params@ == spec_shared_memory_params(*options),
{
    let mut params: Vec<u8> = Vec::new();
    params.push(options.capacity);
    params.push(options.client_threads);
    params.push(options.ops_per_req);
    params
}

/// Capacity, client threads, operations per request and server threads, in
/// this order.
pub fn construct_delegation_params(options: &Options) -> (params: Vec<u8>)
    ensures
        params@ == spec_delegation_params(*options),
{
    let mut params: Vec<u8> = Vec::new();
    params.push(options.capacity);
    params.push(options.client_threads);
    params.push(options.ops_per_req);
    params.push(options.server_threads);
    params
}

/// A benchmark case: the name it is reported under and the parameters handed
/// to the map under test.
#[derive(Clone, Debug)]
pub struct CaseSpec {
    pub name: String,
    pub params: Vec<u8>,
}

/// The case that a map type selects: `Dashmap` runs the shared-memory server
/// case, `Delegation` the delegation server case; any other name runs nothing.
pub open spec fn spec_case(options: Options) -> Option<(Seq<char>, Seq<u8>)> {
    if options.maptype@ == "Dashmap"@ {
        Some(("DashMapServer"@, spec_shared_memory_params(options)))
    } else if options.maptype@ == "Delegation"@ {
        Some(("Delegation Server"@, spec_delegation_params(options)))
    } else {
        None
    }
}

/// The case that the options select, if any.
pub fn select_case(options: &Options) -> (case: Option<CaseSpec>)
    ensures
        match spec_case(*options) {
            Some((name, params)) => case is Some && case->0.name@ == name && case->0.params@ == params,
            None => case is None,
        },
{
    if options.maptype == "Dashmap".to_owned() {
        let params = construct_shared_memory_params(options);
        Some(CaseSpec { name: "DashMapServer".to_owned(), params })
    } else if options.maptype == "Delegation".to_owned() {
        let params = construct_delegation_params(options);
        Some(CaseSpec { name: "Delegation Server".to_owned(), params })
    } else {
        None
    }
}

/// Whether `name` occurs among `names`.
pub open spec fn holds_name(names: Seq<String>, name: Seq<char>) -> bool {
    exists|i: int| 0 <= i < names.len() && #[trigger] names[i]@ == name
}

/// A list of skipped names skips a case exactly when one of its entries is
/// the case's whole name: an entry equal to the name skips it, and where no
/// entry equals the name (an entry that is only a part of the name, say) the
/// case runs.
pub proof fn lemma_skip_needs_whole_name(names: Seq<String>, name: Seq<char>)
    ensures
        (forall|i: int| 0 <= i < names.len() ==> #[trigger] names[i]@ != name) ==> !holds_name(names, name),
        forall|i: int| 0 <= i < names.len() && #[trigger] names[i]@ == name ==> holds_name(names, name),
{
}

/// Whether a list of skipped names holds `name`.
pub open spec fn spec_is_skipped(skip: Option<Vec<String>>, name: Seq<char>) -> bool {
    match skip {
        Some(names) => holds_name(names@, name),
        None => false,
    }
}

/// Whether the case called `name` is to be skipped.
pub fn is_skipped(skip: &Option<Vec<String>>, name: &String) -> (r: bool)
    ensures
        r == spec_is_skipped(*skip, name@),
        match skip {
            Some(names) => r <==> exists|i: int| 0 <= i < names@.len() && #[trigger] names@[i]@ == name@,
            None => !r,
        },
{
    match skip {
        Some(names) => {
            let mut i: usize = 0;
            while i < names.len()
                invariant
                    0 <= i <= names.len(),
                    *skip == Some(*names),
                    forall|j: int| 0 <= j < i ==> #[trigger] names@[j]@ != name@,
                decreases names.len() - i,
            {
                if names[i] == *name {
                    assert(names@[i as int]@ == name@);
                    assert(holds_name(names@, name@));
                    return true;
                }
                i = i + 1;
            }
            false
        },
        None => false,
    }
}

} // verus!
