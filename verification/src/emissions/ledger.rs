//! The allocation ledger: at most one live allocation for each account.
//!
//! The ledger is seen in contracts as a map from account names to
//! allocations. It is kept as a vector of entries in which no account occurs
//! twice; the order of the entries carries no meaning.

use crate::emissions::allocation::AllocationInfo;
use crate::emissions::error::{ContractError, ErrorView};
use crate::emissions::msg::batch_view;
use vstd::prelude::*;

verus! {

/// One account with its allocation.
struct Entry {
    account: String,
    allocation: AllocationInfo,
}

/// The allocations of all accounts.
pub struct AllocationLedger {
    entries: Vec<Entry>,
}

/// No account occurs twice among the entries.
spec fn keys_distinct(entries: Seq<Entry>) -> bool {
    forall|i: int, j: int|
        0 <= i < j < entries.len() ==> (#[trigger] entries[i]).account@ != (
        #[trigger] entries[j]).account@
}

/// Whether some entry belongs to `account`.
spec fn has_key(entries: Seq<Entry>, account: Seq<char>) -> bool {
    exists|i: int| 0 <= i < entries.len() && (#[trigger] entries[i]).account@ == account
}

/// The place of an entry that belongs to `account`.
spec fn index_of(entries: Seq<Entry>, account: Seq<char>) -> int {
    choose|i: int| 0 <= i < entries.len() && (#[trigger] entries[i]).account@ == account
}

/// The map that the entries stand for.
spec fn model(entries: Seq<Entry>) -> Map<Seq<char>, AllocationInfo> {
    Map::new(
        |account: Seq<char>| has_key(entries, account),
        |account: Seq<char>| entries[index_of(entries, account)].allocation,
    )
}

/// With distinct accounts, the map holds at each entry's account that
/// entry's allocation.
proof fn lemma_model_at(entries: Seq<Entry>, i: int)
    requires
        keys_distinct(entries),
        0 <= i < entries.len(),
    ensures
        has_key(entries, entries[i].account@),
        index_of(entries, entries[i].account@) == i,
        model(entries).dom().contains(entries[i].account@),
        model(entries)[entries[i].account@] == entries[i].allocation,
{
    let account = entries[i].account@;
    assert(has_key(entries, account));
    let j = index_of(entries, account);
    assert(0 <= j < entries.len() && entries[j].account@ == account);
    if j < i {
        assert(entries[j].account@ != entries[i].account@);
    } else if i < j {
        assert(entries[i].account@ != entries[j].account@);
    }
}

/// Appending an entry for a new account inserts it into the map.
proof fn lemma_model_push(entries: Seq<Entry>, entry: Entry)
    requires
        keys_distinct(entries),
        !has_key(entries, entry.account@),
    ensures
        keys_distinct(entries.push(entry)),
        model(entries.push(entry)) == model(entries).insert(entry.account@, entry.allocation),
{
    let after = entries.push(entry);
    assert forall|i: int, j: int| 0 <= i < j < after.len() implies (#[trigger] after[i]).account@
        != (#[trigger] after[j]).account@ by {
        if j == entries.len() {
            assert(after[i] == entries[i]);
            if entries[i].account@ == entry.account@ {
                assert(has_key(entries, entry.account@));
            }
        } else {
            assert(after[i] == entries[i] && after[j] == entries[j]);
        }
    }
    assert forall|account: Seq<char>|
        model(after).dom().contains(account) == model(entries).insert(
            entry.account@,
            entry.allocation,
        ).dom().contains(account) by {
        if has_key(after, account) {
            let i = index_of(after, account);
            if i < entries.len() {
                assert(after[i] == entries[i]);
                assert(has_key(entries, account));
            }
        }
        if has_key(entries, account) {
            let i = index_of(entries, account);
            assert(after[i] == entries[i]);
            assert(has_key(after, account));
        }
        if account == entry.account@ {
            assert(after[entries.len() as int] == entry);
            assert(has_key(after, account));
        }
    }
    assert forall|account: Seq<char>| model(after).dom().contains(account) implies model(
        after,
    )[account] == model(entries).insert(entry.account@, entry.allocation)[account] by {
        let i = index_of(after, account);
        lemma_model_at(after, i);
        if i < entries.len() {
            assert(after[i] == entries[i]);
            lemma_model_at(entries, i);
        }
    }
    assert(model(after) =~= model(entries).insert(entry.account@, entry.allocation));
}

/// Replacing the allocation of an entry replaces it in the map.
proof fn lemma_model_update(entries: Seq<Entry>, i: int, entry: Entry)
    requires
        keys_distinct(entries),
        0 <= i < entries.len(),
        entry.account@ == entries[i].account@,
    ensures
        keys_distinct(entries.update(i, entry)),
        model(entries.update(i, entry)) == model(entries).insert(
            entry.account@,
            entry.allocation,
        ),
{
    let after = entries.update(i, entry);
    assert forall|a: int, b: int| 0 <= a < b < after.len() implies (#[trigger] after[a]).account@
        != (#[trigger] after[b]).account@ by {
        assert(after[a].account@ == entries[a].account@);
        assert(after[b].account@ == entries[b].account@);
    }
    assert forall|account: Seq<char>|
        model(after).dom().contains(account) == model(entries).insert(
            entry.account@,
            entry.allocation,
        ).dom().contains(account) by {
        if has_key(after, account) {
            let j = index_of(after, account);
            assert(after[j].account@ == entries[j].account@);
            assert(has_key(entries, account));
        }
        if has_key(entries, account) {
            let j = index_of(entries, account);
            assert(after[j].account@ == entries[j].account@);
            assert(has_key(after, account));
        }
        if account == entry.account@ {
            assert(after[i].account@ == account);
            assert(has_key(after, account));
        }
    }
    assert forall|account: Seq<char>| model(after).dom().contains(account) implies model(
        after,
    )[account] == model(entries).insert(entry.account@, entry.allocation)[account] by {
        let j = index_of(after, account);
        lemma_model_at(after, j);
        if j != i {
            assert(after[j] == entries[j]);
            lemma_model_at(entries, j);
            lemma_model_at(entries, i);
        }
    }
    assert(model(after) =~= model(entries).insert(entry.account@, entry.allocation));
}

/// Taking an entry out takes its account out of the map.
proof fn lemma_model_remove(entries: Seq<Entry>, i: int)
    requires
        keys_distinct(entries),
        0 <= i < entries.len(),
    ensures
        keys_distinct(entries.remove(i)),
        model(entries.remove(i)) == model(entries).remove(entries[i].account@),
{
    let after = entries.remove(i);
    let gone = entries[i].account@;
    assert forall|a: int, b: int| 0 <= a < b < after.len() implies (#[trigger] after[a]).account@
        != (#[trigger] after[b]).account@ by {
        let a0 = if a < i { a } else { a + 1 };
        let b0 = if b < i { b } else { b + 1 };
        assert(after[a] == entries[a0] && after[b] == entries[b0]);
    }
    assert forall|account: Seq<char>|
        model(after).dom().contains(account) == model(entries).remove(gone).dom().contains(
            account,
        ) by {
        if has_key(after, account) {
            let j = index_of(after, account);
            let j0 = if j < i { j } else { j + 1 };
            assert(after[j] == entries[j0]);
            assert(has_key(entries, account));
            if account == gone {
                if j0 < i {
                    assert(entries[j0].account@ != entries[i].account@);
                } else {
                    assert(entries[i].account@ != entries[j0].account@);
                }
            }
        }
        if has_key(entries, account) && account != gone {
            let j0 = index_of(entries, account);
            let j = if j0 < i { j0 } else { j0 - 1 };
            assert(after[j] == entries[j0]);
            assert(has_key(after, account));
        }
    }
    assert forall|account: Seq<char>| model(after).dom().contains(account) implies model(
        after,
    )[account] == model(entries).remove(gone)[account] by {
        let j = index_of(after, account);
        let j0 = if j < i { j } else { j + 1 };
        lemma_model_at(after, j);
        assert(after[j] == entries[j0]);
        lemma_model_at(entries, j0);
    }
    assert(model(after) =~= model(entries).remove(gone));
}

/// What creating an allocation does to a ledger: refused where the account
/// has one already, then where the allocation is malformed; otherwise the
/// allocation is entered.
pub open spec fn spec_create(
    ledger: Map<Seq<char>, AllocationInfo>,
    account: Seq<char>,
    allocation: AllocationInfo,
) -> Result<Map<Seq<char>, AllocationInfo>, ErrorView> {
    if ledger.dom().contains(account) {
        Err(ErrorView::AllocationAlreadyExists { account })
    } else {
        match allocation.spec_validate() {
            Err(reason) => Err(ErrorView::InvalidAllocation { account, reason }),
            Ok(_) => Ok(ledger.insert(account, allocation)),
        }
    }
}

/// What entering a batch does to a ledger: the entries are created one
/// after the other, and the first that is refused refuses the whole batch.
pub open spec fn spec_enter_batch(
    ledger: Map<Seq<char>, AllocationInfo>,
    batch: Seq<(Seq<char>, AllocationInfo)>,
) -> Result<Map<Seq<char>, AllocationInfo>, ErrorView>
    decreases batch.len(),
{
    if batch.len() == 0 {
        Ok(ledger)
    } else {
        match spec_create(ledger, batch[0].0, batch[0].1) {
            Err(e) => Err(e),
            Ok(next) => spec_enter_batch(next, batch.skip(1)),
        }
    }
}

/// Every allocation of the map is well formed.
pub open spec fn all_well_formed(ledger: Map<Seq<char>, AllocationInfo>) -> bool {
    forall|account: Seq<char>| #[trigger]
        ledger.dom().contains(account) ==> ledger[account].wf()
}

impl View for AllocationLedger {
    type V = Map<Seq<char>, AllocationInfo>;

    closed spec fn view(&self) -> Map<Seq<char>, AllocationInfo> {
        model(self.entries@)
    }
}

impl AllocationLedger {
    /// No account is entered twice.
    pub closed spec fn keys_unique(&self) -> bool {
        keys_distinct(self.entries@)
    }

    /// A well-formed ledger holds each account once, and only well-formed
    /// allocations.
    pub open spec fn wf(&self) -> bool {
        self.keys_unique() && all_well_formed(self@)
    }

    /// The empty ledger.
    pub fn new() -> (r: AllocationLedger)
        ensures
            r.wf(),
            r@ == Map::<Seq<char>, AllocationInfo>::empty(),
    {
        let r = AllocationLedger { entries: Vec::new() };
        assert(r@ =~= Map::<Seq<char>, AllocationInfo>::empty());
        r
    }

    /// A second ledger with the same allocations.
    pub fn snapshot(&self) -> (r: AllocationLedger)
        requires
            self.wf(),
        ensures
            r.wf(),
            r@ == self@,
    {
        let mut entries: Vec<Entry> = Vec::new();
        let mut i: usize = 0;
        while i < self.entries.len()
            invariant
                i <= self.entries@.len(),
                entries@ == self.entries@.take(i as int),
            decreases self.entries@.len() - i,
        {
            let entry = Entry {
                account: self.entries[i].account.clone(),
                allocation: self.entries[i].allocation,
            };
            entries.push(entry);
            assert(entries@ =~= self.entries@.take(i + 1));
            i = i + 1;
        }
        assert(entries@ =~= self.entries@);
        AllocationLedger { entries }
    }

    /// The place of the account's entry, if it has one.
    fn find(&self, account: &String) -> (r: Option<usize>)
        requires
            self.keys_unique(),
        ensures
            match r {
                Some(i) => i < self.entries@.len() && self.entries@[i as int].account@ == account@
                    && self@.dom().contains(account@) && self@[account@]
                    == self.entries@[i as int].allocation,
                None => !self@.dom().contains(account@) && !has_key(self.entries@, account@),
            },
    {
        let mut i: usize = 0;
        while i < self.entries.len()
            invariant
                i <= self.entries@.len(),
                self.keys_unique(),
                forall|j: int| 0 <= j < i ==> (#[trigger] self.entries@[j]).account@ != account@,
            decreases self.entries@.len() - i,
        {
            if self.entries[i].account == *account {
                proof {
                    lemma_model_at(self.entries@, i as int);
                }
                return Some(i);
            }
            i = i + 1;
        }
        None
    }

    /// Whether the account has an allocation.
    pub fn contains(&self, account: &String) -> (r: bool)
        requires
            self.wf(),
        ensures
            r == self@.dom().contains(account@),
    {
        self.find(account).is_some()
    }

    /// The allocation of the account, if it has one.
    pub fn get(&self, account: &String) -> (r: Option<AllocationInfo>)
        requires
            self.wf(),
        ensures
            r == (if self@.dom().contains(account@) {
                Some(self@[account@])
            } else {
                None
            }),
            r is Some ==> r->Some_0.wf(),
    {
        match self.find(account) {
            Some(i) => Some(self.entries[i].allocation),
            None => None,
        }
    }

    /// Enters an allocation for an account that has none. Refused with
    /// `AllocationAlreadyExists` where the account has one, and with
    /// `InvalidAllocation` where the allocation is malformed; the ledger is
    /// then unchanged.
    pub fn create(&mut self, account: String, allocation: AllocationInfo) -> (r: Result<
        (),
        ContractError,
    >)
        requires
            old(self).wf(),
        ensures
            final(self).wf(),
            match r {
                Ok(_) => spec_create(old(self)@, account@, allocation) == Ok::<
                    Map<Seq<char>, AllocationInfo>,
                    ErrorView,
                >(final(self)@),
                Err(e) => spec_create(old(self)@, account@, allocation) == Err::<
                    Map<Seq<char>, AllocationInfo>,
                    ErrorView,
                >(e@) && final(self)@ == old(self)@,
            },
    {
        if self.find(&account).is_some() {
            return Err(ContractError::AllocationAlreadyExists { account });
        }
        match allocation.validate() {
            Err(reason) => Err(ContractError::InvalidAllocation { account, reason }),
            Ok(()) => {
                let entry = Entry { account, allocation };
                proof {
                    lemma_model_push(self.entries@, entry);
                }
                self.entries.push(entry);
                Ok(())
            },
        }
    }

    /// Enters a batch of allocations, one after the other, and returns the
    /// ledger that results. The first entry that is refused refuses the
    /// batch, with its error.
    pub fn enter_batch(self, allocations: &Vec<(String, AllocationInfo)>) -> (r: Result<
        AllocationLedger,
        ContractError,
    >)
        requires
            self.wf(),
        ensures
            match r {
                Ok(ledger) => ledger.wf() && spec_enter_batch(self@, batch_view(allocations@))
                    == Ok::<Map<Seq<char>, AllocationInfo>, ErrorView>(ledger@),
                Err(e) => spec_enter_batch(self@, batch_view(allocations@)) == Err::<
                    Map<Seq<char>, AllocationInfo>,
                    ErrorView,
                >(e@),
            },
    {
        let ghost batch = batch_view(allocations@);
        let mut working = self;
        let mut i: usize = 0;
        proof {
            assert(batch.skip(0) =~= batch);
        }
        while i < allocations.len()
            invariant
                i <= allocations@.len(),
                batch == batch_view(allocations@),
                working.wf(),
                spec_enter_batch(self@, batch) == spec_enter_batch(
                    working@,
                    batch.skip(i as int),
                ),
            decreases allocations@.len() - i,
        {
            let account = allocations[i].0.clone();
            let allocation = allocations[i].1;
            proof {
                assert(batch.skip(i as int)[0] == batch[i as int]);
                assert(batch.skip(i as int).skip(1) =~= batch.skip(i + 1));
            }
            match working.create(account, allocation) {
                Ok(()) => {},
                Err(e) => {
                    return Err(e);
                },
            }
            i = i + 1;
        }
        Ok(working)
    }

    /// Adds `amount` to what the account has withdrawn. The caller sees to
    /// it that the account has an allocation and that its total is not
    /// exceeded.
    pub fn record_withdrawal(&mut self, account: &String, amount: u128)
        requires
            old(self).wf(),
            old(self)@.dom().contains(account@),
            old(self)@[account@].withdrawn_amount + amount <= old(self)@[account@].total_amount,
        ensures
            final(self).wf(),
            final(self)@ == old(self)@.insert(
                account@,
                old(self)@[account@].spec_after_withdrawal(amount as int),
            ),
    {
        match self.find(account) {
            Some(i) => {
                let mut allocation = self.entries[i].allocation;
                allocation.record_withdrawal(amount);
                let entry = Entry { account: account.clone(), allocation };
                proof {
                    lemma_model_update(self.entries@, i as int, entry);
                }
                self.entries.set(i, entry);
            },
            None => {},
        }
    }

    /// Deletes the account's allocation; a ledger without one is left as it
    /// is.
    pub fn remove(&mut self, account: &String)
        requires
            old(self).wf(),
        ensures
            final(self).wf(),
            final(self)@ == old(self)@.remove(account@),
    {
        match self.find(account) {
            Some(i) => {
                proof {
                    lemma_model_remove(self.entries@, i as int);
                }
                self.entries.remove(i);
            },
            None => {
                assert(self@.remove(account@) =~= self@);
            },
        }
    }
}

} // verus!
