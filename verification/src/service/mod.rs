//! The services the node hosts (functions, applications in a VM, block
//! storage) and its bookkeeping about them.

use std::collections::HashMap;
use vstd::prelude::*;

pub mod paas;
pub mod storage;

verus! {

/// A stored block.
pub struct Storage {
    pub block: i32,
    pub created_on: String,
    pub offsets: Vec<i32>,
    pub frequency: i32,
}

/// A deployed application.
pub struct Paas {
    pub created_on: String,
}

/// A hosted function.
pub struct Fas {
    pub invocations: i32,
    pub frequency: i32,
    pub created_on: String,
    pub status1: String,
}

/// Bookkeeping of one service: how many requests created an instance, when
/// it was last updated, and the end of the data appended to the block file.
pub struct MetaData {
    pub instance_count: i32,
    pub last_updated: (String, String),
    pub current_block_offset: u64,
}

/// One service's bookkeeping and its instances by name.
#[verifier::reject_recursive_types(T)]
pub struct ServiceData<T> {
    pub metadata: MetaData,
    pub instances: HashMap<String, T>,
}

/// Everything the node hosts.
pub struct Service {
    pub paas: ServiceData<Paas>,
    pub storage: ServiceData<Storage>,
    pub faas: ServiceData<Fas>,
}

/// Whether `d` is the bookkeeping of a service that has seen nothing yet.
pub open spec fn is_fresh<T>(d: ServiceData<T>) -> bool {
    &&& d.metadata.instance_count == 0
    &&& d.metadata.last_updated.0@ == Seq::<char>::empty()
    &&& d.metadata.last_updated.1@ == Seq::<char>::empty()
    &&& d.metadata.current_block_offset == 0
    &&& d.instances@ == Map::<String, T>::empty()
}

impl<T> ServiceData<T> {
    /// Bookkeeping with no instances, counters at zero and empty dates.
    pub fn new() -> (r: Self)
        ensures
            is_fresh(r),
    {
        ServiceData {
            metadata: MetaData {
                instance_count: 0,
                last_updated: (String::new(), String::new()),
                current_block_offset: 0,
            },
            instances: HashMap::new(),
        }
    }
}

impl Service {
    /// A node that hosts nothing yet.
    pub fn new() -> (r: Self)
        ensures
            is_fresh(r.paas),
            is_fresh(r.storage),
            is_fresh(r.faas),
    {
        Service { paas: ServiceData::new(), storage: ServiceData::new(), faas: ServiceData::new() }
    }
}

} // verus!
