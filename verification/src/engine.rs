//! The engine the host calls: a record store and a balance ledger,
//! owned together but fully independent.
//!
//! Each public operation is one discrete, serialized unit of work; an
//! operation on one component leaves the other untouched.

use crate::codec::CodecError;
use crate::ledger::BalanceLedger;
use crate::store::RecordStore;
use vstd::prelude::*;

verus! {

/// Owns the record map and the balance map; the host invokes
/// `store_record`, `get_record` and `charge_for_data` on it serially.
pub struct DataEngine {
    records: RecordStore,
    balances: BalanceLedger,
}

impl DataEngine {
    /// The texts stored so far, in call order; record `id` holds the
    /// text at position `id - 1`.
    pub closed spec fn records_view(self) -> Seq<Seq<char>> {
        self.records@
    }

    /// The balance stored for each seeded account.
    pub closed spec fn balances_view(self) -> Map<Seq<char>, int> {
        self.balances@
    }

    /// An engine with no records and no balances.
    pub fn new() -> (r: Self)
        ensures
            r.records_view() == Seq::<Seq<char>>::empty(),
            r.balances_view() == Map::<Seq<char>, int>::empty(),
    {
        DataEngine { records: RecordStore::new(), balances: BalanceLedger::new() }
    }

    /// How many records have been stored.
    pub fn record_count(&self) -> (r: u64)
        ensures
            r == self.records_view().len(),
    {
        self.records.count()
    }

    /// Compress `data` and persist it under the next identifier,
    /// `record_count + 1`.
    ///
    /// The operation is atomic: either the record is fully stored and its
    /// new identifier returned, or a compression error would propagate
    /// with the engine left exactly as it was. The codec's contract
    /// proves the failure case unreachable, so the store always succeeds;
    /// balances are untouched either way.
    pub fn store_record(&mut self, data: String) -> (r: Result<u64, CodecError>)
        requires
            old(self).records_view().len() < u64::MAX,
        ensures
            r matches Ok(id) && id == old(self).records_view().len() + 1
                && final(self).records_view() == old(self).records_view().push(data@),
            final(self).balances_view() == old(self).balances_view(),
    {
        self.records.store(data)
    }

    /// Retrieve and decompress the record stored under `id`.
    ///
    /// Returns `None` exactly when no record exists for `id` — absence is
    /// not an error. For an existing record the stored text is recovered.
    pub fn get_record(&self, id: u64) -> (r: Option<Result<String, CodecError>>)
        ensures
            r is Some <==> 1 <= id && id <= self.records_view().len(),
            r matches Some(res) ==> (res matches Ok(s) && s@ == self.records_view()[id - 1]),
    {
        self.records.get(id)
    }

    /// Apply a usage charge to `account`.
    ///
    /// A charge on an account with no entry is a silent no-op; on a
    /// seeded account the stored balance becomes `balance - amount`,
    /// even when that is negative. Records are untouched either way.
    pub fn charge_for_data(&mut self, account: String, amount: u128)
        requires
            old(self).balances_view().contains_key(account@) ==> amount <= i128::MAX as u128,
            old(self).balances_view().contains_key(account@) ==> old(self).balances_view()[account@]
                - amount >= i128::MIN,
        ensures
            old(self).balances_view().contains_key(account@) ==> final(self).balances_view()
                == old(self).balances_view().insert(
                account@,
                old(self).balances_view()[account@] - amount,
            ),
            !old(self).balances_view().contains_key(account@) ==> final(self).balances_view()
                == old(self).balances_view(),
            final(self).records_view() == old(self).records_view(),
    {
        self.balances.charge(account, amount)
    }

    /// Seed or overwrite the balance for `account`.
    ///
    /// Charges never create entries; this external collaborator's entry
    /// point is the only operation that does.
    pub fn set_balance(&mut self, account: String, value: i128)
        ensures
            final(self).balances_view() == old(self).balances_view().insert(account@, value as int),
            final(self).records_view() == old(self).records_view(),
    {
        self.balances.set_balance(account, value)
    }

    /// The balance stored for `account`, if an entry exists.
    pub fn balance_of(&self, account: &String) -> (r: Option<i128>)
        ensures
            r matches Some(b) ==> self.balances_view().contains_key(account@) && b as int
                == self.balances_view()[account@],
            r is None ==> !self.balances_view().contains_key(account@),
    {
        self.balances.balance_of(account)
    }
}

impl Default for DataEngine {
    /// An engine with no records and no balances.
    fn default() -> (r: Self)
        ensures
            r.records_view() == Seq::<Seq<char>>::empty(),
            r.balances_view() == Map::<Seq<char>, int>::empty(),
    {
        DataEngine::new()
    }
}

} // verus!
