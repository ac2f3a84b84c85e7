use vstd::prelude::*;

use std::collections::HashMap;

verus! {

broadcast use vstd::std_specs::hash::group_hash_axioms;

/// Whether `n` is a power of two.
pub open spec fn is_power_of_two(n: int) -> bool
    decreases n,
{
    if n <= 0 {
        false
    } else if n == 1 {
        true
    } else {
        n % 2 == 0 && is_power_of_two(n / 2)
    }
}

/// The largest power of two that a `usize` holds.
pub open spec fn max_usize_power_of_two() -> int {
    (usize::MAX as int + 1) / 2
}

/// `p` is the smallest power of two that is at least `x`.
pub open spec fn is_next_power_of_two(p: int, x: int) -> bool {
    &&& is_power_of_two(p)
    &&& x <= p
    &&& (p == 1 || p / 2 < x)
}

/// The number of buckets a table gets on a machine with `cpus` processors:
/// the smallest power of two that is at least four buckets per processor,
/// or `None` where that number does not fit in a `usize`.
pub fn bucket_count(cpus: usize) -> (r: Option<usize>)
    ensures
        match r {
            Some(n) => is_next_power_of_two(n as int, 4 * cpus),
            None => 4 * cpus > max_usize_power_of_two(),
        },
{
    if cpus > usize::MAX / 4 {
        return None;
    }
    let target: usize = cpus * 4;
    if target > usize::MAX / 2 + 1 {
        return None;
    }
    let mut p: usize = 1;
    while p < target
        invariant
            target == 4 * cpus,
            target <= max_usize_power_of_two(),
            is_power_of_two(p as int),
            p == 1 || p / 2 < target,
            p >= 1,
        decreases 2 * target - p,
    {
        assert(is_power_of_two((2 * p) as int));
        p = p * 2;
    }
    Some(p)
}

/// The bucket that holds `key` among `n` buckets: the key, cut to a `usize`,
/// modulo the number of buckets.
pub open spec fn spec_bucket_index(key: u128, n: usize) -> int {
    ((key as usize) % n) as int
}

/// The bucket that holds `key` among `n` buckets.
pub fn bucket_index(key: u128, n: usize) -> (i: usize)
    requires
        n > 0,
    ensures
        i == spec_bucket_index(key, n),
        i < n,
{
    (key as usize) % n
}

/// Whether a bucket holds `key`.
pub fn bucket_get(bucket: &HashMap<u128, u128>, key: u128) -> (found: bool)
    ensures
        found == bucket@.contains_key(key),
{
    bucket.get(&key).is_some()
}

/// Stores `key` with the value 0; true when the key was not there before.
pub fn bucket_insert(bucket: &mut HashMap<u128, u128>, key: u128) -> (fresh: bool)
    ensures
        fresh == !old(bucket)@.contains_key(key),
        final(bucket)@ == old(bucket)@.insert(key, 0),
{
    bucket.insert(key, 0).is_none()
}

/// Removes `key`; true when the key was there.
pub fn bucket_remove(bucket: &mut HashMap<u128, u128>, key: u128) -> (found: bool)
    ensures
        found == old(bucket)@.contains_key(key),
        final(bucket)@ == old(bucket)@.remove(key),
{
    bucket.remove(&key).is_some()
}

/// Adds one to the value of `key` where the key is there; true when it is.
pub fn bucket_update(bucket: &mut HashMap<u128, u128>, key: u128) -> (found: bool)
    requires
        old(bucket)@.contains_key(key) ==> old(bucket)@[key] < u128::MAX,
    ensures
        found == old(bucket)@.contains_key(key),
        final(bucket)@ == if found {
            old(bucket)@.insert(key, (old(bucket)@[key] + 1) as u128)
        } else {
            old(bucket)@
        },
{
    match bucket.get(&key) {
        Some(v) => {
            let next = *v + 1;
            bucket.insert(key, next);
            true
        },
        None => false,
    }
}


/// Calls `num_cpus::get`, the number of processors this process may run on;
/// its documentation promises at least one. What else it returns depends on
/// the machine and is not stated.
#[verifier::external_body]
fn available_cpus() -> (n: usize)
    ensures
        n >= 1,
{
    num_cpus::get()
}

/// Every key of every bucket lies in the bucket that `spec_bucket_index`
/// names for it, among at least one bucket.
pub open spec fn buckets_well_formed(b: Seq<Map<u128, u128>>) -> bool {
    &&& 0 < b.len() <= usize::MAX
    &&& forall|i: int, k: u128|
        0 <= i < b.len() && #[trigger] b[i].contains_key(k) ==> i == spec_bucket_index(
            k,
            b.len() as usize,
        )
}

/// The map that buckets hold together: a key's entry is the one in the
/// bucket that `spec_bucket_index` names for it.
pub open spec fn buckets_view(b: Seq<Map<u128, u128>>) -> Map<u128, u128> {
    Map::new(
        |k: u128| b[spec_bucket_index(k, b.len() as usize)].contains_key(k),
        |k: u128| b[spec_bucket_index(k, b.len() as usize)][k],
    )
}

/// Changing the entry of one key in that key's bucket, and nothing else in
/// it, changes the entry of that key alone in the map the buckets hold, and
/// keeps every key in its bucket. Operations on different buckets thus never
/// touch each other's keys, which lets each bucket be locked on its own.
pub proof fn lemma_change_in_home_bucket(b: Seq<Map<u128, u128>>, k: u128, nb: Map<u128, u128>)
    requires
        buckets_well_formed(b),
        forall|j: u128| #![trigger nb.contains_key(j)]
            j != k ==> {
                let old_bucket = b[spec_bucket_index(k, b.len() as usize)];
                &&& nb.contains_key(j) == old_bucket.contains_key(j)
                &&& nb.contains_key(j) ==> nb[j] == old_bucket[j]
            },
    ensures
        buckets_well_formed(b.update(spec_bucket_index(k, b.len() as usize), nb)),
        buckets_view(b.update(spec_bucket_index(k, b.len() as usize), nb)) == if nb.contains_key(k) {
            buckets_view(b).insert(k, nb[k])
        } else {
            buckets_view(b).remove(k)
        },
{
    let i = spec_bucket_index(k, b.len() as usize);
    let b2 = b.update(i, nb);
    assert forall|x: int, j: u128|
        0 <= x < b2.len() && #[trigger] b2[x].contains_key(j) implies x == spec_bucket_index(
        j,
        b2.len() as usize,
    ) by {
        if x == i && j != k {
            assert(b[i].contains_key(j));
        }
    }
    if nb.contains_key(k) {
        assert(buckets_view(b2) =~= buckets_view(b).insert(k, nb[k]));
    } else {
        assert(buckets_view(b2) =~= buckets_view(b).remove(k));
    }
}

/// The contents of each bucket, in order.
pub open spec fn bucket_contents(b: Seq<HashMap<u128, u128>>) -> Seq<Map<u128, u128>> {
    Seq::new(b.len(), |i: int| b[i]@)
}

/// One operation of the benchmark on a striped table.
#[derive(Clone, Copy, Debug, PartialEq, Eq, Structural)]
pub enum TableOp {
    Get(u128),
    Insert(u128),
    Remove(u128),
    Update(u128),
}

/// The key an operation works on.
pub open spec fn op_key(op: TableOp) -> u128 {
    match op {
        TableOp::Get(k) => k,
        TableOp::Insert(k) => k,
        TableOp::Remove(k) => k,
        TableOp::Update(k) => k,
    }
}

/// What an operation does to a map: a lookup changes nothing, an insert
/// stores the value 0, a removal drops the key, and an update adds one to the
/// value of a key that is there and stores no new key.
pub open spec fn map_step(m: Map<u128, u128>, op: TableOp) -> Map<u128, u128> {
    match op {
        TableOp::Get(_) => m,
        TableOp::Insert(k) => m.insert(k, 0),
        TableOp::Remove(k) => m.remove(k),
        TableOp::Update(k) => if m.contains_key(k) {
            m.insert(k, (m[k] + 1) as u128)
        } else {
            m
        },
    }
}

/// A map after a sequence of operations, applied in order.
pub open spec fn map_run(m: Map<u128, u128>, ops: Seq<TableOp>) -> Map<u128, u128>
    decreases ops.len(),
{
    if ops.len() == 0 {
        m
    } else {
        map_run(map_step(m, ops[0]), ops.drop_first())
    }
}

/// Buckets after one operation: the operation is applied to the bucket that
/// `spec_bucket_index` names for its key, and every other bucket is left as
/// it is.
pub open spec fn buckets_step(b: Seq<Map<u128, u128>>, op: TableOp) -> Seq<Map<u128, u128>> {
    let i = spec_bucket_index(op_key(op), b.len() as usize);
    b.update(i, map_step(b[i], op))
}

/// Buckets after a sequence of operations, applied in order.
pub open spec fn buckets_run(b: Seq<Map<u128, u128>>, ops: Seq<TableOp>) -> Seq<Map<u128, u128>>
    decreases ops.len(),
{
    if ops.len() == 0 {
        b
    } else {
        buckets_run(buckets_step(b, ops[0]), ops.drop_first())
    }
}

/// One operation on a key's bucket keeps the number of buckets and every key
/// in its bucket, and acts on the map the buckets hold as it acts on a map.
pub proof fn lemma_bucket_step(b: Seq<Map<u128, u128>>, op: TableOp)
    requires
        buckets_well_formed(b),
    ensures
        buckets_step(b, op).len() == b.len(),
        buckets_well_formed(buckets_step(b, op)),
        buckets_view(buckets_step(b, op)) == map_step(buckets_view(b), op),
{
    let k = op_key(op);
    let i = spec_bucket_index(k, b.len() as usize);
    let nb = map_step(b[i], op);
    lemma_change_in_home_bucket(b, k, nb);
    let v = buckets_view(b);
    if nb.contains_key(k) {
        assert(v.insert(k, nb[k]) =~= map_step(v, op));
    } else {
        assert(v.remove(k) =~= map_step(v, op));
    }
}

/// Whatever sequence of lookups, inserts, removals and updates runs on a
/// striped table, with each operation applied to the bucket of its key, the
/// number of buckets never changes, every key stays in the bucket that
/// `spec_bucket_index` names for it (so no key lies in two buckets), and the
/// map the buckets hold is the map that the same operations give when they
/// are applied to a single map.
pub proof fn lemma_buckets_run(b: Seq<Map<u128, u128>>, ops: Seq<TableOp>)
    requires
        buckets_well_formed(b),
    ensures
        buckets_run(b, ops).len() == b.len(),
        buckets_well_formed(buckets_run(b, ops)),
        buckets_view(buckets_run(b, ops)) == map_run(buckets_view(b), ops),
    decreases ops.len(),
{
    if ops.len() > 0 {
        lemma_bucket_step(b, ops[0]);
        lemma_buckets_run(buckets_step(b, ops[0]), ops.drop_first());
    }
}

/// A hash map from `u128` keys to `u128` values, split into buckets: a key
/// lives in the bucket that `spec_bucket_index` names. Each bucket can be
/// guarded on its own, so that threads working on different buckets do not
/// wait for each other.
pub struct StripedMapTable {
    buckets: Vec<HashMap<u128, u128>>,
}

impl StripedMapTable {
    /// The contents of each bucket, in order.
    pub closed spec fn bucket_maps(self) -> Seq<Map<u128, u128>> {
        bucket_contents(self.buckets@)
    }

    /// There is at least one bucket, and every key lies in the bucket that
    /// `spec_bucket_index` names for it.
    pub open spec fn well_formed(self) -> bool {
        buckets_well_formed(self.bucket_maps())
    }

    /// The number of buckets.
    pub open spec fn spec_bucket_len(self) -> nat {
        self.bucket_maps().len()
    }

    /// The number of buckets.
    pub fn bucket_len(&self) -> (n: usize)
        requires
            self.well_formed(),
        ensures
            n == self.spec_bucket_len(),
            n > 0,
    {
        self.buckets.len()
    }
}

impl View for StripedMapTable {
    type V = Map<u128, u128>;

    /// The map that the buckets hold together.
    open spec fn view(&self) -> Map<u128, u128> {
        buckets_view(self.bucket_maps())
    }
}

/// `t` is the table built on a machine with `cpus` processors: an empty,
/// well-formed table whose number of buckets is the smallest power of two that
/// is at least four per processor, or `None` where that number does not fit in
/// a `usize`.
pub open spec fn table_for_cpus(t: Option<StripedMapTable>, cpus: usize) -> bool {
    match t {
        Some(t) => {
            &&& t.well_formed()
            &&& t@ == Map::<u128, u128>::empty()
            &&& is_next_power_of_two(t.spec_bucket_len() as int, 4 * cpus)
        },
        None => 4 * cpus > max_usize_power_of_two(),
    }
}

impl StripedMapTable {
    /// An empty table with `no_buckets` buckets, each made for its share of
    /// `capacity` entries.
    pub fn with_buckets(no_buckets: usize, capacity: usize) -> (t: StripedMapTable)
        requires
            no_buckets > 0,
        ensures
            t.well_formed(),
            t@ == Map::<u128, u128>::empty(),
            t.spec_bucket_len() == no_buckets,
    {
        let capacity_per_bucket = capacity / no_buckets;
        let mut buckets: Vec<HashMap<u128, u128>> = Vec::new();
        let mut i: usize = 0;
        while i < no_buckets
            invariant
                0 <= i <= no_buckets,
                buckets@.len() == i,
                forall|j: int| 0 <= j < i ==> #[trigger] buckets@[j]@ == Map::<u128, u128>::empty(),
            decreases no_buckets - i,
        {
            buckets.push(HashMap::with_capacity(capacity_per_bucket));
            i = i + 1;
        }
        let t = StripedMapTable { buckets };
        assert(t@ =~= Map::<u128, u128>::empty());
        t
    }

    /// An empty table for `capacity` entries on a machine with `cpus`
    /// processors, with `bucket_count(cpus)` buckets; `None` where that count
    /// does not fit in a `usize`.
    pub fn with_capacity_for_cpus(cpus: usize, capacity: usize) -> (t: Option<StripedMapTable>)
        ensures
            table_for_cpus(t, cpus),
    {
        match bucket_count(cpus) {
            Some(n) => {
                assert(n > 0);
                Some(StripedMapTable::with_buckets(n, capacity))
            },
            None => None,
        }
    }

    /// The table that `with_capacity_for_cpus` builds for the number of
    /// processors this process may run on, which `num_cpus::get` reports and
    /// which depends on the machine: an empty table with four buckets or more
    /// per processor, rounded up to a power of two, or `None` where that
    /// count does not fit in a `usize`.
    pub fn with_capacity(capacity: usize) -> (t: Option<StripedMapTable>)
        ensures
            exists|cpus: usize| cpus >= 1 && #[trigger] table_for_cpus(t, cpus),
            t matches Some(t) ==> {
                &&& t.well_formed()
                &&& t@ == Map::<u128, u128>::empty()
                &&& is_power_of_two(t.spec_bucket_len() as int)
                &&& t.spec_bucket_len() >= 4
            },
    {
        let cpus = available_cpus();
        let t = StripedMapTable::with_capacity_for_cpus(cpus, capacity);
        assert(table_for_cpus(t, cpus));
        t
    }

    /// Whether the table holds `key`.
    pub fn get(&self, key: u128) -> (found: bool)
        requires
            self.well_formed(),
        ensures
            found == self@.contains_key(key),
    {
        let index = bucket_index(key, self.buckets.len());
        bucket_get(&self.buckets[index], key)
    }

    /// Stores `key` with the value 0; true when the key was not there.
    pub fn insert(&mut self, key: u128) -> (fresh: bool)
        requires
            old(self).well_formed(),
        ensures
            final(self).well_formed(),
            final(self).spec_bucket_len() == old(self).spec_bucket_len(),
            fresh == !old(self)@.contains_key(key),
            final(self)@ == old(self)@.insert(key, 0),
            final(self).bucket_maps() == buckets_step(old(self).bucket_maps(), TableOp::Insert(key)),
    {
        let index = bucket_index(key, self.buckets.len());
        let fresh = bucket_insert(&mut self.buckets[index], key);
        proof {
            let nb = self.buckets@[index as int]@;
            assert(self.bucket_maps() =~= old(self).bucket_maps().update(index as int, nb));
            lemma_change_in_home_bucket(old(self).bucket_maps(), key, nb);
        }
        fresh
    }

    /// The buckets of the table, in order: every key of the table lies in the
    /// bucket that `spec_bucket_index` names, with the same value, and no
    /// bucket holds any other key.
    pub fn into_buckets(self) -> (buckets: Vec<HashMap<u128, u128>>)
        requires
            self.well_formed(),
        ensures
            bucket_contents(buckets@) == self.bucket_maps(),
            buckets_well_formed(bucket_contents(buckets@)),
            buckets_view(bucket_contents(buckets@)) == self@,
    {
        self.buckets
    }

    /// Removes `key`; true when the key was there.
    pub fn remove(&mut self, key: u128) -> (found: bool)
        requires
            old(self).well_formed(),
        ensures
            final(self).well_formed(),
            final(self).spec_bucket_len() == old(self).spec_bucket_len(),
            found == old(self)@.contains_key(key),
            final(self)@ == old(self)@.remove(key),
            final(self).bucket_maps() == buckets_step(old(self).bucket_maps(), TableOp::Remove(key)),
    {
        let index = bucket_index(key, self.buckets.len());
        let found = bucket_remove(&mut self.buckets[index], key);
        proof {
            let nb = self.buckets@[index as int]@;
            assert(self.bucket_maps() =~= old(self).bucket_maps().update(index as int, nb));
            lemma_change_in_home_bucket(old(self).bucket_maps(), key, nb);
        }
        found
    }

    /// Adds one to the value of `key` where the key is there, and never
    /// stores a new key; true when the key is there.
    pub fn update(&mut self, key: u128) -> (found: bool)
        requires
            old(self).well_formed(),
            old(self)@.contains_key(key) ==> old(self)@[key] < u128::MAX,
        ensures
            final(self).well_formed(),
            final(self).spec_bucket_len() == old(self).spec_bucket_len(),
            found == old(self)@.contains_key(key),
            final(self)@ == if found {
                old(self)@.insert(key, (old(self)@[key] + 1) as u128)
            } else {
                old(self)@
            },
            final(self).bucket_maps() == buckets_step(old(self).bucket_maps(), TableOp::Update(key)),
    {
        let index = bucket_index(key, self.buckets.len());
        let found = bucket_update(&mut self.buckets[index], key);
        proof {
            let nb = self.buckets@[index as int]@;
            assert(self.bucket_maps() =~= old(self).bucket_maps().update(index as int, nb));
            lemma_change_in_home_bucket(old(self).bucket_maps(), key, nb);
            if !found {
                assert(old(self)@.remove(key) =~= old(self)@);
            }
        }
        found
    }
}

} // verus!
