use conc_map_bench::{
    build_operation_requests, interpret_results, HandShakeRequest, KeyValueType, NetworkConfig,
    Operation, OperationResult, OperationResults, OperationType,
};

#[test]
fn handshake_copies_the_network_configuration() {
    let config = NetworkConfig {
        address: String::from("127.0.0.1:7878"),
        client_threads: 4,
        server_threads: 2,
        ops_per_req: 16,
    };
    let h = HandShakeRequest::new(&config, 1 << 15);
    assert_eq!(
        h,
        HandShakeRequest {
            client_threads: 4,
            server_threads: 2,
            ops_per_req: 16,
            capacity: 32768,
            key_type: KeyValueType::Int(0),
            value_type: KeyValueType::Int(0),
        }
    );
}

#[test]
fn each_operation_type_maps_to_its_request() {
    let types = vec![
        OperationType::Read,
        OperationType::Insert,
        OperationType::Remove,
        OperationType::Update,
        OperationType::Upsert,
    ];
    let keys = vec![1, 2, 3, 4, 5];
    let (requests, expects_reply) = build_operation_requests(&types, &keys);
    assert!(expects_reply);
    assert_eq!(
        requests.operations,
        vec![
            Operation::Read { key: KeyValueType::Int(1) },
            Operation::Insert { key: KeyValueType::Int(2), value: KeyValueType::Int(0) },
            Operation::Remove { key: KeyValueType::Int(3) },
            Operation::Increment { key: KeyValueType::Int(4) },
            Operation::Read { key: KeyValueType::Int(5) },
        ]
    );
}

#[test]
fn end_closes_and_expects_no_reply() {
    let types = vec![OperationType::Read, OperationType::End];
    let keys = vec![7];
    let (requests, expects_reply) = build_operation_requests(&types, &keys);
    assert!(!expects_reply);
    assert_eq!(
        requests.operations,
        vec![Operation::Read { key: KeyValueType::Int(7) }, Operation::Close]
    );
}

#[test]
fn empty_batch_expects_a_reply() {
    let (requests, expects_reply) = build_operation_requests(&vec![], &vec![]);
    assert!(expects_reply);
    assert!(requests.operations.is_empty());
}

#[test]
fn results_are_read_per_operation_type() {
    let types = vec![
        OperationType::Read,
        OperationType::Read,
        OperationType::Insert,
        OperationType::Insert,
        OperationType::Insert,
        OperationType::Remove,
        OperationType::Update,
        OperationType::Upsert,
        OperationType::End,
    ];
    let results = OperationResults {
        results: vec![
            OperationResult::Success(KeyValueType::Int(9)),
            OperationResult::Failure,
            OperationResult::Success(KeyValueType::Int(0)),
            OperationResult::Success(KeyValueType::Int(1)),
            OperationResult::Failure,
            OperationResult::Success(KeyValueType::Int(3)),
            OperationResult::Success(KeyValueType::Int(3)),
            OperationResult::Success(KeyValueType::Int(3)),
            OperationResult::Success(KeyValueType::Int(0)),
        ],
    };
    assert_eq!(
        interpret_results(&types, &results),
        vec![true, false, true, false, false, true, true, false, false]
    );
}

#[test]
fn fewer_results_than_operations_give_fewer_outcomes() {
    let types = vec![OperationType::Remove, OperationType::Update];
    let results = OperationResults { results: vec![OperationResult::Failure] };
    assert_eq!(interpret_results(&types, &results), vec![false]);
}
