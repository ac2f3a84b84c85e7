//! Verified core of a benchmark driver for concurrent key-value maps.
//!
//! The library holds the decisions of the driver: which workload mix a
//! benchmark runs, which parameters are handed to a map under test, how
//! batched operations are framed for a remote map server and how its replies
//! are read, and a lock-striped hash map whose buckets are addressed by key.
//! Everything that talks to the network, the terminal or the clock lives in
//! the program around it.

mod bench;
mod server;
mod striped;
mod workloads;

pub use bench::{
    construct_delegation_params, construct_shared_memory_params, holds_name, is_skipped,
    lemma_skip_needs_whole_name,
    lemma_delegation_params_extend_shared, select_case,
    spec_case, spec_delegation_params, spec_is_skipped, spec_shared_memory_params, CaseSpec,
    Options,
};
pub use server::{
    build_operation_requests, interpret_results, keys_cover, lemma_outcome_cases,
    lemma_request_carries_key, request_key, spec_expects_reply, spec_operation,
    spec_outcome, HandShakeRequest, KeyValueType, NetworkConfig, Operation, OperationRequests,
    OperationResult, OperationResults, OperationType,
};
pub use striped::{
    bucket_contents, bucket_count, bucket_get, bucket_index, bucket_insert, bucket_remove,
    bucket_update, buckets_run, buckets_step, buckets_view, buckets_well_formed,
    lemma_bucket_step, lemma_buckets_run, lemma_change_in_home_bucket, map_run, map_step, op_key,
    is_next_power_of_two, is_power_of_two, max_usize_power_of_two, spec_bucket_index,
    table_for_cpus,
    StripedMapTable, TableOp,
};
pub use workloads::{
    create, exchange, lemma_parse_name_round_trip, lemma_workload_is_runnable,
    lemma_workload_shapes, lemma_workload_takes_caller_parameters, rapid_grow,
    read_heavy, spec_kind_name, spec_mix,
    spec_parse_workload, spec_prefill_percent, spec_workload, Mix, WorkloadKind, WorkloadPlan,
    WorkloadSpec,
};
