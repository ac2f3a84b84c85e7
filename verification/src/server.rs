use vstd::prelude::*;

verus! {

/// A key or a value as the map server encodes it.
#[derive(Clone, Copy, Debug, PartialEq, Eq, Structural)]
pub enum KeyValueType {
    Int(u64),
}

/// Where a remote map server listens and how the client is set up.
#[derive(Clone, Debug)]
pub struct NetworkConfig {
    pub address: String,
    pub client_threads: usize,
    pub server_threads: usize,
    pub ops_per_req: usize,
}

/// The first message a client sends to the map server: the shape of the
/// benchmark and the types of keys and values.
#[derive(Clone, Copy, Debug, PartialEq, Eq, Structural)]
pub struct HandShakeRequest {
    pub client_threads: usize,
    pub server_threads: usize,
    pub ops_per_req: usize,
    pub capacity: usize,
    pub key_type: KeyValueType,
    pub value_type: KeyValueType,
}

impl HandShakeRequest {
    /// The handshake for a table of the given capacity: thread counts and
    /// batch size are taken from the network configuration, and keys and
    /// values are integers.
    pub fn new(network_config: &NetworkConfig, capacity: usize) -> (r: HandShakeRequest)
        ensures
            r == (HandShakeRequest {
                client_threads: network_config.client_threads,
                server_threads: network_config.server_threads,
                ops_per_req: network_config.ops_per_req,
                capacity,
                key_type: KeyValueType::Int(0),
                value_type: KeyValueType::Int(0),
            }),
    {
        HandShakeRequest {
            client_threads: network_config.client_threads,
            server_threads: network_config.server_threads,
            ops_per_req: network_config.ops_per_req,
            capacity,
            key_type: KeyValueType::Int(0),
            value_type: KeyValueType::Int(0),
        }
    }
}

/// The kinds of operation a benchmark thread asks for; `End` closes the
/// session.
#[derive(Clone, Copy, Debug, PartialEq, Eq, Structural)]
pub enum OperationType {
    Read,
    Insert,
    Remove,
    Update,
    Upsert,
    End,
}

/// One operation as the map server receives it.
#[derive(Clone, Copy, Debug, PartialEq, Eq, Structural)]
pub enum Operation {
    Read { key: KeyValueType },
    Insert { key: KeyValueType, value: KeyValueType },
    Remove { key: KeyValueType },
    Increment { key: KeyValueType },
    Close,
}

/// The server's answer to one operation.
#[derive(Clone, Copy, Debug, PartialEq, Eq, Structural)]
pub enum OperationResult {
    Success(KeyValueType),
    Failure,
}

/// A batch of operations sent in one request.
#[derive(Clone, Debug)]
pub struct OperationRequests {
    pub operations: Vec<Operation>,
}

/// The answers to a batch, in the order of its operations.
#[derive(Clone, Debug)]
pub struct OperationResults {
    pub results: Vec<OperationResult>,
}

/// The operation sent for a requested operation on `key`: an update becomes
/// an increment, an upsert is sent as a read, an insert stores the value 0,
/// and the end of the session closes it.
pub open spec fn spec_operation(t: OperationType, key: u64) -> Operation {
    match t {
        OperationType::Read => Operation::Read { key: KeyValueType::Int(key) },
        OperationType::Insert => Operation::Insert {
            key: KeyValueType::Int(key),
            value: KeyValueType::Int(0),
        },
        OperationType::Remove => Operation::Remove { key: KeyValueType::Int(key) },
        OperationType::Update => Operation::Increment { key: KeyValueType::Int(key) },
        OperationType::Upsert => Operation::Read { key: KeyValueType::Int(key) },
        OperationType::End => Operation::Close,
    }
}

/// The key a request carries, if any: every request but the one that closes
/// the session carries one.
pub open spec fn request_key(op: Operation) -> Option<KeyValueType> {
    match op {
        Operation::Read { key } => Some(key),
        Operation::Insert { key, value: _ } => Some(key),
        Operation::Remove { key } => Some(key),
        Operation::Increment { key } => Some(key),
        Operation::Close => None,
    }
}

/// Every request of a batch carries the caller's key unchanged, for every
/// `u64` key; an insert stores the value 0; the end of the session is sent as
/// the request that closes it, and only it.
pub proof fn lemma_request_carries_key(t: OperationType, key: u64)
    ensures
        t != OperationType::End ==> request_key(spec_operation(t, key)) == Some(KeyValueType::Int(key)),
        t == OperationType::End <==> spec_operation(t, key) == Operation::Close,
        t == OperationType::Insert ==> spec_operation(t, key) == (Operation::Insert {
            key: KeyValueType::Int(key),
            value: KeyValueType::Int(0),
        }),
        t == OperationType::Update ==> spec_operation(t, key) is Increment,
        t == OperationType::Remove ==> spec_operation(t, key) is Remove,
        (t == OperationType::Read || t == OperationType::Upsert) ==> spec_operation(t, key) is Read,
{
}

/// Whether a batch asks the server for a reply: it does unless it ends the
/// session.
pub open spec fn spec_expects_reply(types: Seq<OperationType>) -> bool {
    forall|i: int| 0 <= i < types.len() ==> #[trigger] types[i] != OperationType::End
}

/// Every operation of a batch, except the end of the session, has a key.
pub open spec fn keys_cover(types: Seq<OperationType>, keys: Seq<u64>) -> bool {
    forall|i: int| 0 <= i < types.len() && #[trigger] types[i] != OperationType::End ==> i < keys.len()
}

/// The batch of operations that carries `types[i]` on `keys[i]`, and whether
/// the server will answer it.
pub fn build_operation_requests(types: &Vec<OperationType>, keys: &Vec<u64>) -> (r: (OperationRequests, bool))
    requires
        keys_cover(types@, keys@),
    ensures
        r.0.operations@.len() == types@.len(),
        forall|i: int| 0 <= i < types@.len() ==>
            #[trigger] r.0.operations@[i] == spec_operation(types@[i], keys@[i]),
        forall|i: int| 0 <= i < types@.len() && types@[i] != OperationType::End ==>
            request_key(#[trigger] r.0.operations@[i]) == Some(KeyValueType::Int(keys@[i])),
        forall|i: int| 0 <= i < types@.len() ==>
            (types@[i] == OperationType::End <==> #[trigger] r.0.operations@[i] == Operation::Close),
        r.1 == spec_expects_reply(types@),
        r.1 <==> forall|i: int| 0 <= i < types@.len() ==> #[trigger] r.0.operations@[i] != Operation::Close,
{
    let mut return_data_available = true;
    let mut operations: Vec<Operation> = Vec::new();
    let mut index: usize = 0;
    while index < types.len()
        invariant
            0 <= index <= types@.len(),
            keys_cover(types@, keys@),
            operations@.len() == index,
            forall|i: int| 0 <= i < index ==>
                #[trigger] operations@[i] == spec_operation(types@[i], keys@[i]),
            return_data_available == (forall|i: int| 0 <= i < index ==> #[trigger] types@[i] != OperationType::End),
        decreases types@.len() - index,
    {
        let operation_type = types[index];
        let operation = match operation_type {
            OperationType::Read => Operation::Read { key: KeyValueType::Int(keys[index]) },
            OperationType::Insert => Operation::Insert {
                key: KeyValueType::Int(keys[index]),
                value: KeyValueType::Int(0),
            },
            OperationType::Remove => Operation::Remove { key: KeyValueType::Int(keys[index]) },
            OperationType::Update => Operation::Increment { key: KeyValueType::Int(keys[index]) },
            OperationType::Upsert => Operation::Read { key: KeyValueType::Int(keys[index]) },
            OperationType::End => {
                return_data_available = false;
                Operation::Close
            },
        };
        operations.push(operation);
        index = index + 1;
    }
    proof {
        assert forall|i: int| 0 <= i < types@.len() implies
            (#[trigger] operations@[i] == Operation::Close <==> types@[i] == OperationType::End)
            && (types@[i] != OperationType::End ==> request_key(operations@[i]) == Some(KeyValueType::Int(keys@[i])))
        by {
            lemma_request_carries_key(types@[i], keys@[i]);
        }
        if return_data_available {
            assert forall|i: int| 0 <= i < types@.len() implies #[trigger] operations@[i] != Operation::Close by {
                assert(types@[i] != OperationType::End);
            }
        } else {
            let j = choose|j: int| 0 <= j < types@.len() && #[trigger] types@[j] == OperationType::End;
            assert(operations@[j] == Operation::Close);
        }
    }
    (OperationRequests { operations }, return_data_available)
}

/// What the benchmark learns from the server's answer to an operation:
/// a read, removal or update succeeded when the server says so, an insert
/// succeeded when the server reports the stored value 0, and an upsert or the
/// end of a session never count as success.
pub open spec fn spec_outcome(t: OperationType, result: OperationResult) -> bool {
    match t {
        OperationType::Read | OperationType::Remove | OperationType::Update => result is Success,
        OperationType::Insert => match result {
            OperationResult::Success(KeyValueType::Int(value)) => value == 0,
            OperationResult::Failure => false,
        },
        OperationType::End => false,
        OperationType::Upsert => false,
    }
}

/// A read, removal or update counts as a success exactly when the server
/// answers `Success`; an insert exactly when the server answers that it
/// stored the value 0; an upsert or the end of a session never does.
pub proof fn lemma_outcome_cases(t: OperationType, result: OperationResult)
    ensures
        (t == OperationType::Read || t == OperationType::Remove || t == OperationType::Update)
            ==> (spec_outcome(t, result) <==> result is Success),
        t == OperationType::Insert ==> (spec_outcome(t, result) <==> result == OperationResult::Success(KeyValueType::Int(0))),
        (t == OperationType::Upsert || t == OperationType::End) ==> !spec_outcome(t, result),
        result == OperationResult::Failure ==> !spec_outcome(t, result),
{
}

/// The outcome of each answered operation, in order.
pub fn interpret_results(types: &Vec<OperationType>, results: &OperationResults) -> (outcomes: Vec<bool>)
    requires
        results.results@.len() <= types@.len(),
    ensures
        outcomes@.len() == results.results@.len(),
        forall|i: int| 0 <= i < outcomes@.len() ==>
            #[trigger] outcomes@[i] == spec_outcome(types@[i], results.results@[i]),
        forall|i: int| 0 <= i < outcomes@.len() && results.results@[i] == OperationResult::Failure ==>
            !#[trigger] outcomes@[i],
        forall|i: int| 0 <= i < outcomes@.len()
            && (types@[i] == OperationType::Read || types@[i] == OperationType::Remove || types@[i] == OperationType::Update)
            ==> (#[trigger] outcomes@[i] <==> results.results@[i] is Success),
        forall|i: int| 0 <= i < outcomes@.len() && types@[i] == OperationType::Insert ==>
            (#[trigger] outcomes@[i] <==> results.results@[i] == OperationResult::Success(KeyValueType::Int(0))),
        forall|i: int| 0 <= i < outcomes@.len()
            && (types@[i] == OperationType::Upsert || types@[i] == OperationType::End) ==> !#[trigger] outcomes@[i],
{
    let mut result_booleans: Vec<bool> = Vec::new();
    let mut index: usize = 0;
    while index < results.results.len()
        invariant
            0 <= index <= results.results@.len(),
            results.results@.len() <= types@.len(),
            result_booleans@.len() == index,
            forall|i: int| 0 <= i < index ==>
                #[trigger] result_booleans@[i] == spec_outcome(types@[i], results.results@[i]),
        decreases results.results@.len() - index,
    {
        let operation_result = &results.results[index];
        let operation_type = types[index];
        let result = match operation_type {
            OperationType::Read | OperationType::Remove | OperationType::Update => match operation_result {
                OperationResult::Success(_) => true,
                OperationResult::Failure => false,
            },
            OperationType::Insert => match operation_result {
                OperationResult::Success(value) => match value {
                    KeyValueType::Int(value) => *value == 0,
                },
                OperationResult::Failure => false,
            },
            OperationType::End => false,
            OperationType::Upsert => false,
        };
        result_booleans.push(result);
        index = index + 1;
    }
    proof {
        assert forall|i: int| 0 <= i < result_booleans@.len() implies
            spec_outcome(types@[i], results.results@[i]) == #[trigger] result_booleans@[i] by {
            lemma_outcome_cases(types@[i], results.results@[i]);
        }
    }
    result_booleans
}

} // verus!
