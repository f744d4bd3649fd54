//! The lock status of virtual objects as rows of a key-value table: which
//! key a service is stored under, and what is written and read for a status.
//! A service without a row counts as unlocked, so `Unlocked` is never stored.

use vstd::prelude::*;

verus! {

/// A service instance: its name, its key, and the partition it lives in.
#[derive(Debug, PartialEq, Eq)]
pub struct ServiceId {
    pub partition_key: u64,
    pub service_name: String,
    pub key: String,
}

/// Mathematical value of a [`ServiceId`].
pub struct ServiceIdView {
    pub partition_key: u64,
    pub service_name: Seq<char>,
    pub key: Seq<char>,
}

impl View for ServiceId {
    type V = ServiceIdView;

    open spec fn view(&self) -> ServiceIdView {
        ServiceIdView {
            partition_key: self.partition_key,
            service_name: self.service_name@,
            key: self.key@,
        }
    }
}

/// The invocation that holds a lock.
#[derive(Clone, Copy, Debug, PartialEq, Eq, Structural)]
pub struct InvocationId {
    pub partition_key: u64,
    pub uuid: u128,
}

/// Whether a virtual object is locked, and by which invocation.
#[derive(Clone, Copy, Debug, PartialEq, Eq, Structural)]
pub enum VirtualObjectStatus {
    Locked(InvocationId),
    Unlocked,
}

/// The key of a status row. A key that was written has all three
/// components; one that was read may lack some.
#[derive(Debug, PartialEq, Eq)]
pub struct ServiceStatusKey {
    pub partition_key: Option<u64>,
    pub service_name: Option<String>,
    pub service_key: Option<String>,
}

/// Mathematical value of a [`ServiceStatusKey`].
pub struct ServiceStatusKeyView {
    pub partition_key: Option<u64>,
    pub service_name: Option<Seq<char>>,
    pub service_key: Option<Seq<char>>,
}

impl View for ServiceStatusKey {
    type V = ServiceStatusKeyView;

    open spec fn view(&self) -> ServiceStatusKeyView {
        ServiceStatusKeyView {
            partition_key: self.partition_key,
            service_name: match self.service_name {
                Some(name) => Some(name@),
                None => None,
            },
            service_key: match self.service_key {
                Some(key) => Some(key@),
                None => None,
            },
        }
    }
}

/// The key under which the status of `service_id` is stored.
pub open spec fn status_key_of(service_id: ServiceIdView) -> ServiceStatusKeyView {
    ServiceStatusKeyView {
        partition_key: Some(service_id.partition_key),
        service_name: Some(service_id.service_name),
        service_key: Some(service_id.key),
    }
}

/// What to do to the table.
#[derive(Debug, PartialEq, Eq)]
pub enum StorageOp {
    DeleteKey(ServiceStatusKey),
    PutKv(ServiceStatusKey, VirtualObjectStatus),
}

/// Mathematical value of a [`StorageOp`].
pub enum StorageOpView {
    DeleteKey(ServiceStatusKeyView),
    PutKv(ServiceStatusKeyView, VirtualObjectStatus),
}

impl View for StorageOp {
    type V = StorageOpView;

    open spec fn view(&self) -> StorageOpView {
        match self {
            StorageOp::DeleteKey(key) => StorageOpView::DeleteKey(key@),
            StorageOp::PutKv(key, status) => StorageOpView::PutKv(key@, *status),
        }
    }
}

/// The rows of the table.
pub type StatusTable = Map<ServiceStatusKeyView, VirtualObjectStatus>;

/// The table after `op`.
pub open spec fn table_after(table: StatusTable, op: StorageOpView) -> StatusTable {
    match op {
        StorageOpView::DeleteKey(key) => table.remove(key),
        StorageOpView::PutKv(key, status) => table.insert(key, status),
    }
}

/// The write that records `status` for `service_id`.
pub open spec fn write_for(service_id: ServiceIdView, status: VirtualObjectStatus) -> StorageOpView {
    if status == VirtualObjectStatus::Unlocked {
        StorageOpView::DeleteKey(status_key_of(service_id))
    } else {
        StorageOpView::PutKv(status_key_of(service_id), status)
    }
}

/// What a row, or its absence, says of a virtual object.
pub open spec fn status_of(stored: Option<VirtualObjectStatus>) -> VirtualObjectStatus {
    match stored {
        Some(status) => status,
        None => VirtualObjectStatus::Unlocked,
    }
}

/// The status that the table holds for `service_id`.
pub open spec fn status_in(table: StatusTable, service_id: ServiceIdView) -> VirtualObjectStatus {
    let key = status_key_of(service_id);
    status_of(
        if table.contains_key(key) {
            Some(table[key])
        } else {
            None
        },
    )
}

/// No row of the table says `Unlocked`.
pub open spec fn stores_locks_only(table: StatusTable) -> bool {
    forall|key: ServiceStatusKeyView| #[trigger]
        table.contains_key(key) ==> table[key] != VirtualObjectStatus::Unlocked
}

/// The key under which the status of `service_id` is written.
pub fn write_status_key(service_id: &ServiceId) -> (key: ServiceStatusKey)
    ensures
        key@ == status_key_of(service_id@),
{
    ServiceStatusKey {
        partition_key: Some(service_id.partition_key),
        service_name: Some(service_id.service_name.clone()),
        service_key: Some(service_id.key.clone()),
    }
}

/// The write that records `status` for `service_id`: the row is deleted for
/// `Unlocked` and put for every other status.
pub fn put_virtual_object_status(service_id: &ServiceId, status: &VirtualObjectStatus) -> (op:
    StorageOp)
    ensures
        op@ == write_for(service_id@, *status),
{
    let key = write_status_key(service_id);
    match status {
        VirtualObjectStatus::Unlocked => StorageOp::DeleteKey(key),
        VirtualObjectStatus::Locked(id) => StorageOp::PutKv(key, VirtualObjectStatus::Locked(*id)),
    }
}

/// The status that a read of the row gave: a missing row means `Unlocked`.
pub fn get_virtual_object_status(stored: Option<VirtualObjectStatus>) -> (status:
    VirtualObjectStatus)
    ensures
        status == status_of(stored),
{
    match stored {
        Some(status) => status,
        None => VirtualObjectStatus::Unlocked,
    }
}

/// The write that removes the row of `service_id`.
pub fn delete_virtual_object_status(service_id: &ServiceId) -> (op: StorageOp)
    ensures
        op@ == StorageOpView::DeleteKey(status_key_of(service_id@)),
{
    StorageOp::DeleteKey(write_status_key(service_id))
}

/// The entry that a scanned row stands for, if its key is complete.
pub fn all_virtual_object_status(key: ServiceStatusKey, value: VirtualObjectStatus) -> (row: Option<
    (ServiceId, VirtualObjectStatus),
>)
    ensures
        match row {
            Some((service_id, status)) => key@ == status_key_of(service_id@) && status == value,
            None => key.partition_key is None || key.service_name is None || key.service_key
                is None,
        },
{
    match (key.partition_key, key.service_name, key.service_key) {
        (Some(partition_key), Some(service_name), Some(service_key)) => Some(
            (ServiceId { partition_key, service_name, key: service_key }, value),
        ),
        _ => None,
    }
}

/// Whether a store that serves the partition keys from `first` to `last`
/// serves `service_id`.
pub fn assert_partition_key(first: u64, last: u64, service_id: &ServiceId) -> (served: bool)
    ensures
        served == (first <= service_id.partition_key <= last),
{
    first <= service_id.partition_key && service_id.partition_key <= last
}

/// What was put for a service is what is read for it, `Unlocked` included;
/// the rows of all other services stay as they were; and the table goes on
/// holding locks only.
pub proof fn read_after_write(
    table: StatusTable,
    service_id: ServiceIdView,
    status: VirtualObjectStatus,
    other: ServiceIdView,
)
    requires
        stores_locks_only(table),
    ensures
        status_in(table_after(table, write_for(service_id, status)), service_id) == status,
        other != service_id ==> status_in(
            table_after(table, write_for(service_id, status)),
            other,
        ) == status_in(table, other),
        stores_locks_only(table_after(table, write_for(service_id, status))),
{
    let after = table_after(table, write_for(service_id, status));
    if other != service_id {
        assert(status_key_of(other) != status_key_of(service_id));
    }
    assert forall|key: ServiceStatusKeyView| #[trigger] after.contains_key(key) implies after[key]
        != VirtualObjectStatus::Unlocked by {
        if key != status_key_of(service_id) {
            assert(table.contains_key(key));
        }
    }
}

/// After its row was deleted a service reads as unlocked.
pub proof fn read_after_delete(table: StatusTable, service_id: ServiceIdView)
    ensures
        status_in(
            table_after(table, StorageOpView::DeleteKey(status_key_of(service_id))),
            service_id,
        ) == VirtualObjectStatus::Unlocked,
{
}

} // verus!
