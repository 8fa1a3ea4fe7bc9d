//! The certificate resolver: the table of certified keys by server name, held behind
//! an atomically replaceable reference so that a renewal swaps it without pausing
//! handshakes.

use vstd::prelude::*;
use std::sync::Arc;
use arc_swap::ArcSwap;
use crate::domains::DomainMap;

verus! {

/// The certified keys by server name. A table is never changed once a resolver holds
/// it: a new certificate set is a new table.
pub type ResolverTable<K> = DomainMap<K>;

/// An `arc_swap::ArcSwap` that holds the active table. Its strategy type lies in a
/// private module of arc-swap and cannot be declared, so the cell is hidden whole.
#[verifier::external_body]
#[verifier::reject_recursive_types(K)]
pub struct TableCell<K> {
    cell: ArcSwap<ResolverTable<K>>,
}

/// Relies on `arc_swap::ArcSwap::from_pointee`: a cell that holds `table`.
#[verifier::external_body]
fn cell_new<K>(table: ResolverTable<K>) -> TableCell<K> {
    TableCell { cell: ArcSwap::from_pointee(table) }
}

/// Relies on `arc_swap::ArcSwapAny::load_full`: one atomic load of the table that is
/// current, which is a whole table, the one stored before or the one after any
/// concurrent store.
#[verifier::external_body]
fn cell_load<K>(cell: &TableCell<K>) -> Arc<ResolverTable<K>> {
    cell.cell.load_full()
}

/// Relies on `arc_swap::ArcSwapAny::store`: one atomic replacement of the current table;
/// loads that begin afterwards see `table`.
#[verifier::external_body]
fn cell_store<K>(cell: &TableCell<K>, table: Arc<ResolverTable<K>>) {
    cell.cell.store(table)
}

/// The active table of certified keys, swapped whole on renewal.
#[verifier::reject_recursive_types(K)]
pub struct Resolver<K> {
    current: TableCell<K>,
}

impl<K> Resolver<K> {
    /// A resolver whose active table is `table`.
    pub fn new(table: ResolverTable<K>) -> Self {
        Resolver { current: cell_new(table) }
    }

    /// Makes `table` the active table for every handshake that begins afterwards.
    pub fn swap(&self, table: ResolverTable<K>) {
        cell_store(&self.current, Arc::new(table))
    }

    /// The active table. A handshake resolves against one snapshot, so it never sees
    /// entries of two tables.
    pub fn snapshot(&self) -> Arc<ResolverTable<K>> {
        cell_load(&self.current)
    }
}

/// The certified key for `server_name` in `table`.
pub fn resolve<'a, K>(table: &'a ResolverTable<K>, server_name: &str) -> (r: Option<&'a K>)
    ensures
        match r {
            Some(k) => table@.contains_key(server_name@) && *k == table@[server_name@],
            None => !table@.contains_key(server_name@),
        },
{
    table.get(server_name)
}

} // verus!
