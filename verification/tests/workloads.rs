use std::str::FromStr;

use conc_map_bench::{create, exchange, rapid_grow, read_heavy, Mix, Options, WorkloadKind, WorkloadSpec};

fn options(kind: WorkloadKind) -> Options {
    Options {
        workload: kind,
        capacity: 15,
        times: 1,
        ops_per_req: 100,
        server_threads: 2,
        maptype: String::from("Dashmap"),
        client_threads: 20,
        use_std_hasher: false,
        gc_sleep_ms: 2000,
        skip: None,
        complete_slow: false,
        csv: false,
        csv_no_headers: false,
    }
}

fn total(m: &Mix) -> u32 {
    m.read as u32 + m.insert as u32 + m.remove as u32 + m.update as u32 + m.upsert as u32
}

#[test]
fn parses_each_workload_name() {
    assert_eq!(WorkloadKind::from_str("ReadHeavy"), Ok(WorkloadKind::ReadHeavy));
    assert_eq!(WorkloadKind::from_str("Exchange"), Ok(WorkloadKind::Exchange));
    assert_eq!(WorkloadKind::from_str("RapidGrow"), Ok(WorkloadKind::RapidGrow));
}

#[test]
fn rejects_unknown_workload_names() {
    assert_eq!(WorkloadKind::from_str("readheavy"), Err("unknown workload"));
    assert_eq!(WorkloadKind::from_str(""), Err("unknown workload"));
    assert_eq!(WorkloadKind::from_str("ReadHeavy "), Err("unknown workload"));
}

#[test]
fn name_of_each_kind_parses_back() {
    for kind in [WorkloadKind::ReadHeavy, WorkloadKind::Exchange, WorkloadKind::RapidGrow] {
        assert_eq!(WorkloadKind::from_str(kind.as_str()), Ok(kind));
    }
}

#[test]
fn read_heavy_mix_and_prefill() {
    let w = read_heavy(4, 15);
    assert_eq!(
        w,
        WorkloadSpec {
            threads: 4,
            mix: Mix { read: 98, insert: 1, remove: 1, update: 0, upsert: 0 },
            capacity_log2: 15,
            prefill_percent: 80,
        }
    );
}

#[test]
fn rapid_grow_mix_and_prefill() {
    let w = rapid_grow(1, 20);
    assert_eq!(w.threads, 1);
    assert_eq!(w.capacity_log2, 20);
    assert_eq!(w.mix, Mix { read: 5, insert: 80, remove: 5, update: 10, upsert: 0 });
    assert_eq!(w.prefill_percent, 0);
}

#[test]
fn exchange_mix_and_prefill() {
    let w = exchange(8, 10);
    assert_eq!(w.threads, 8);
    assert_eq!(w.mix, Mix { read: 10, insert: 40, remove: 40, update: 10, upsert: 0 });
    assert_eq!(w.prefill_percent, 80);
}

#[test]
fn every_workload_is_runnable() {
    for kind in [WorkloadKind::ReadHeavy, WorkloadKind::Exchange, WorkloadKind::RapidGrow] {
        let plan = create(&options(kind));
        assert_eq!(total(&plan.workload.mix), 100);
        assert!(plan.workload.prefill_percent <= 100);
    }
}

#[test]
fn create_takes_threads_capacity_and_batch_size_from_options() {
    let plan = create(&options(WorkloadKind::Exchange));
    assert_eq!(plan.workload, exchange(20, 15));
    assert_eq!(plan.ops_per_req, 100);
    let plan = create(&options(WorkloadKind::ReadHeavy));
    assert_eq!(plan.workload, read_heavy(20, 15));
    let plan = create(&options(WorkloadKind::RapidGrow));
    assert_eq!(plan.workload, rapid_grow(20, 15));
}
