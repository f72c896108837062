//! The persisted state of the ledger: the configuration, the feature flags,
//! and one record per investor, kept sorted by identity as a range scan of
//! the backing store would deliver them.

use vstd::prelude::*;

use crate::msg::DepositInfo;
use crate::order::{key_lt, lemma_key_lt_transitive, lemma_key_lt_trichotomy, str_key_lt};

verus! {

/// Immutable-ish configuration, created once at initialization; only the
/// token contract reference is mutable afterwards.
#[derive(Debug, Clone, PartialEq, Eq)]
pub struct Config {
    pub admin: String,
    pub team_wallet: String,
    pub token_addr: String,
    pub stable_denom: String,
    pub start_time: u64,
    pub lock_time: u64,
    pub vesting_time: u64,
}

impl Config {
    /// The schedule fits the clock: vesting begins at `start_time +
    /// lock_time` and completes `vesting_time` seconds later.
    pub open spec fn wf(self) -> bool {
        self.start_time + self.lock_time + self.vesting_time <= u64::MAX
    }

    /// The instant vesting begins.
    pub open spec fn unlock_time(self) -> int {
        self.start_time + self.lock_time
    }
}

/// Mutable feature flags.
#[derive(Debug, Clone, Copy, PartialEq, Eq, Structural)]
pub struct Status {
    pub can_deposit: bool,
    pub can_withdraw: bool,
}

/// Everything deposited by one investor.
#[derive(Debug, Clone, PartialEq, Eq)]
pub struct DepositData {
    pub total_deposited: u128,
    pub deposit_history: Vec<DepositInfo>,
}

/// One investor's admin-assigned token allocation and refund amount.
#[derive(Debug, Clone, Copy, PartialEq, Eq, Structural)]
pub struct UserData {
    pub allocation: u128,
    pub refunded: u128,
}

/// Every durable record keyed by one investor identity. An absent field is
/// an absent record and reads as zero.
#[derive(Debug, Clone, PartialEq, Eq)]
pub struct InvestorEntry {
    pub addr: String,
    pub deposit: Option<DepositData>,
    pub user_data: Option<UserData>,
    /// Vested amount as of the most recent claim.
    pub released: Option<u128>,
    /// Present once the one-time refund has been paid, at its value then.
    pub refund_paid: Option<u128>,
}

/// The whole persisted state of the contract.
pub struct VestingState {
    pub config: Config,
    pub status: Status,
    pub entries: Vec<InvestorEntry>,
}

/// First record whose identity is `key`, scanning left to right.
pub open spec fn find_entry(s: Seq<InvestorEntry>, key: Seq<char>) -> Option<InvestorEntry>
    decreases s.len(),
{
    if s.len() == 0 {
        None
    } else if s[0].addr@ == key {
        Some(s[0])
    } else {
        find_entry(s.drop_first(), key)
    }
}

/// The records are strictly ascending by identity, hence unique.
pub open spec fn sorted_keys(s: Seq<InvestorEntry>) -> bool {
    forall|i: int, j: int|
        #![trigger s[i], s[j]]
        0 <= i < j < s.len() ==> key_lt(s[i].addr@, s[j].addr@)
}

impl VestingState {
    /// A well-formed state: a meaningful schedule and a sorted ledger.
    pub open spec fn wf(self) -> bool {
        self.config.wf() && sorted_keys(self.entries@)
    }

    /// The record for `key`, if any.
    pub open spec fn entry_of(self, key: Seq<char>) -> Option<InvestorEntry> {
        find_entry(self.entries@, key)
    }

    /// The deposit record for `key`, if any.
    pub open spec fn deposit_of(self, key: Seq<char>) -> Option<DepositData> {
        match self.entry_of(key) {
            Some(e) => e.deposit,
            None => None,
        }
    }

    /// Whether `key` has a deposit record at all.
    pub open spec fn has_deposit(self, key: Seq<char>) -> bool {
        self.deposit_of(key) is Some
    }

    /// Total deposited by `key`; zero when no record exists.
    pub open spec fn total_deposited_of(self, key: Seq<char>) -> u128 {
        match self.deposit_of(key) {
            Some(d) => d.total_deposited,
            None => 0,
        }
    }

    /// Deposit history of `key`, oldest first; empty when no record exists.
    pub open spec fn history_of(self, key: Seq<char>) -> Seq<DepositInfo> {
        match self.deposit_of(key) {
            Some(d) => d.deposit_history@,
            None => Seq::empty(),
        }
    }

    /// Token allocation of `key`; zero when no record exists.
    pub open spec fn allocation_of(self, key: Seq<char>) -> u128 {
        match self.entry_of(key) {
            Some(e) => match e.user_data {
                Some(u) => u.allocation,
                None => 0,
            },
            None => 0,
        }
    }

    /// Refund amount assigned to `key`; zero when no record exists.
    pub open spec fn refunded_of(self, key: Seq<char>) -> u128 {
        match self.entry_of(key) {
            Some(e) => match e.user_data {
                Some(u) => u.refunded,
                None => 0,
            },
            None => 0,
        }
    }

    /// Cumulative amount already released to `key`; zero when no record
    /// exists.
    pub open spec fn released_of(self, key: Seq<char>) -> u128 {
        match self.entry_of(key) {
            Some(e) => match e.released {
                Some(v) => v,
                None => 0,
            },
            None => 0,
        }
    }

    /// The one-time refund marker of `key`: the amount paid, if paid.
    pub open spec fn refund_marker_of(self, key: Seq<char>) -> Option<u128> {
        match self.entry_of(key) {
            Some(e) => e.refund_paid,
            None => None,
        }
    }

    /// Whether the one-time refund has already been paid to `key`.
    pub open spec fn refund_paid(self, key: Seq<char>) -> bool {
        self.refund_marker_of(key) is Some
    }
}

/// When `key` sits at index `i` and nowhere earlier, the scan finds it there.
proof fn lemma_find_entry_at(s: Seq<InvestorEntry>, key: Seq<char>, i: int)
    requires
        0 <= i < s.len(),
        s[i].addr@ == key,
        forall|j: int| 0 <= j < i ==> s[j].addr@ != key,
    ensures
        find_entry(s, key) == Some(s[i]),
    decreases i,
{
    if i > 0 {
        assert forall|j: int| 0 <= j < i - 1 implies s.drop_first()[j].addr@ != key by {
            assert(s.drop_first()[j] == s[j + 1]);
        }
        assert(s.drop_first()[i - 1] == s[i]);
        lemma_find_entry_at(s.drop_first(), key, i - 1);
    }
}

/// When no record carries `key`, the scan finds nothing.
proof fn lemma_find_entry_none(s: Seq<InvestorEntry>, key: Seq<char>)
    requires
        forall|j: int| 0 <= j < s.len() ==> s[j].addr@ != key,
    ensures
        find_entry(s, key) is None,
    decreases s.len(),
{
    if s.len() > 0 {
        assert forall|j: int| 0 <= j < s.drop_first().len() implies s.drop_first()[j].addr@
            != key by {
            assert(s.drop_first()[j] == s[j + 1]);
        }
        lemma_find_entry_none(s.drop_first(), key);
    }
}

/// On a sorted ledger the scan is the map lookup: it finds the one matching
/// index, and nothing when no index matches.
pub proof fn lemma_sorted_find(s: Seq<InvestorEntry>, key: Seq<char>)
    requires
        sorted_keys(s),
    ensures
        (forall|j: int| 0 <= j < s.len() ==> s[j].addr@ != key) ==> find_entry(s, key) is None,
        forall|i: int|
            0 <= i < s.len() && s[i].addr@ == key ==> find_entry(s, key) == Some(s[i]),
{
    if forall|j: int| 0 <= j < s.len() ==> s[j].addr@ != key {
        lemma_find_entry_none(s, key);
    }
    assert forall|i: int| 0 <= i < s.len() && s[i].addr@ == key implies find_entry(s, key)
        == Some(s[i]) by {
        assert forall|j: int| 0 <= j < i implies s[j].addr@ != key by {
            lemma_key_lt_trichotomy(s[j].addr@, s[i].addr@);
        }
        lemma_find_entry_at(s, key, i);
    }
}

impl VestingState {
    /// Where `addr` stands in the ledger: `Ok(i)` when its record is at `i`,
    /// `Err(i)` when it has no record and `i` is its sorted insertion point.
    fn locate(&self, addr: &String) -> (r: Result<usize, usize>)
        requires
            self.wf(),
        ensures
            match r {
                Ok(i) => {
                    &&& i < self.entries@.len()
                    &&& self.entries@[i as int].addr@ == addr@
                    &&& self.entry_of(addr@) == Some(self.entries@[i as int])
                },
                Err(i) => {
                    &&& i <= self.entries@.len()
                    &&& self.entry_of(addr@) is None
                    &&& forall|j: int|
                        0 <= j < i ==> key_lt(self.entries@[j as int].addr@, addr@)
                    &&& forall|j: int|
                        i <= j < self.entries@.len() ==> key_lt(
                            addr@,
                            self.entries@[j as int].addr@,
                        )
                },
            },
    {
        let n = self.entries.len();
        let mut i: usize = 0;
        while i < n
            invariant
                i <= n,
                n == self.entries@.len(),
                self.wf(),
                forall|j: int| 0 <= j < i ==> key_lt(self.entries@[j].addr@, addr@),
            decreases n - i,
        {
            let e_addr = &self.entries[i].addr;
            if e_addr.eq(addr) {
                proof {
                    lemma_sorted_find(self.entries@, addr@);
                }
                return Ok(i);
            }
            if !str_key_lt(e_addr, addr) {
                proof {
                    lemma_key_lt_trichotomy(self.entries@[i as int].addr@, addr@);
                    assert forall|j: int|
                        i <= j < self.entries@.len() implies key_lt(
                        addr@,
                        self.entries@[j as int].addr@,
                    ) by {
                        if j > i {
                            lemma_key_lt_transitive(
                                addr@,
                                self.entries@[i as int].addr@,
                                self.entries@[j].addr@,
                            );
                        }
                    }
                    assert forall|j: int|
                        0 <= j < self.entries@.len() implies self.entries@[j].addr@ != addr@ by {
                        lemma_key_lt_trichotomy(self.entries@[j].addr@, addr@);
                    }
                    lemma_find_entry_none(self.entries@, addr@);
                }
                return Err(i);
            }
            i = i + 1;
        }
        proof {
            assert forall|j: int|
                0 <= j < self.entries@.len() implies self.entries@[j].addr@ != addr@ by {
                lemma_key_lt_trichotomy(self.entries@[j].addr@, addr@);
            }
            lemma_find_entry_none(self.entries@, addr@);
        }
        Err(n)
    }
}

/// Replacing the record at `i` by one with the same identity keeps the
/// ledger sorted, rebinds that identity, and touches no other lookup.
proof fn lemma_replace_entry(
    s0: Seq<InvestorEntry>,
    s1: Seq<InvestorEntry>,
    i: int,
    e: InvestorEntry,
)
    requires
        sorted_keys(s0),
        0 <= i < s0.len(),
        e.addr@ == s0[i].addr@,
        s1 == s0.update(i, e),
    ensures
        sorted_keys(s1),
        find_entry(s1, e.addr@) == Some(e),
        forall|k: Seq<char>| k != e.addr@ ==> find_entry(s1, k) == find_entry(s0, k),
{
    assert forall|a: int, b: int|
        #![trigger s1[a], s1[b]]
        0 <= a < b < s1.len() implies key_lt(s1[a].addr@, s1[b].addr@) by {
        assert(s1[a].addr@ == s0[a].addr@);
        assert(s1[b].addr@ == s0[b].addr@);
        assert(key_lt(s0[a].addr@, s0[b].addr@));
    }
    lemma_sorted_find(s1, e.addr@);
    assert(s1[i] == e);
    assert forall|k: Seq<char>| k != e.addr@ implies find_entry(s1, k) == find_entry(s0, k) by {
        lemma_sorted_find(s0, k);
        lemma_sorted_find(s1, k);
        if exists|j: int| 0 <= j < s0.len() && s0[j].addr@ == k {
            let j = choose|j: int| 0 <= j < s0.len() && s0[j].addr@ == k;
            assert(j != i);
            assert(s1[j] == s0[j]);
            assert(find_entry(s0, k) == Some(s0[j]));
            assert(find_entry(s1, k) == Some(s1[j]));
        } else {
            assert forall|j: int| 0 <= j < s1.len() implies s1[j].addr@ != k by {
                assert(s0[j].addr@ != k);
                if j != i {
                    assert(s1[j] == s0[j]);
                }
            }
            assert forall|j: int| 0 <= j < s0.len() implies s0[j].addr@ != k by {}
        }
    }
}

/// Inserting a record between its sorted neighbours keeps the ledger sorted,
/// makes its identity found, and touches no other lookup.
proof fn lemma_insert_entry(
    s0: Seq<InvestorEntry>,
    s1: Seq<InvestorEntry>,
    i: int,
    e: InvestorEntry,
)
    requires
        sorted_keys(s0),
        0 <= i <= s0.len(),
        forall|j: int| 0 <= j < i ==> key_lt(s0[j].addr@, e.addr@),
        forall|j: int| i <= j < s0.len() ==> key_lt(e.addr@, s0[j].addr@),
        s1 == s0.insert(i, e),
    ensures
        sorted_keys(s1),
        find_entry(s1, e.addr@) == Some(e),
        forall|k: Seq<char>| k != e.addr@ ==> find_entry(s1, k) == find_entry(s0, k),
{
    s0.insert_ensures(i, e);
    assert forall|a: int, b: int|
        #![trigger s1[a], s1[b]]
        0 <= a < b < s1.len() implies key_lt(s1[a].addr@, s1[b].addr@) by {
        if a == i {
            assert(s1[b] == s0[b - 1]);
        } else if b == i {
            assert(s1[a] == s0[a]);
        } else if a < i && b < i {
            assert(s1[a] == s0[a]);
            assert(s1[b] == s0[b]);
        } else if a < i {
            assert(s1[a] == s0[a]);
            assert(s1[b] == s0[b - 1]);
            if b - 1 == a {
                lemma_key_lt_transitive(s0[a].addr@, e.addr@, s0[b - 1].addr@);
            }
        } else {
            assert(s1[a] == s0[a - 1]);
            assert(s1[b] == s0[b - 1]);
        }
    }
    lemma_sorted_find(s1, e.addr@);
    assert(s1[i] == e);
    assert forall|k: Seq<char>| k != e.addr@ implies find_entry(s1, k) == find_entry(s0, k) by {
        lemma_sorted_find(s0, k);
        lemma_sorted_find(s1, k);
        if exists|j: int| 0 <= j < s0.len() && s0[j].addr@ == k {
            let j = choose|j: int| 0 <= j < s0.len() && s0[j].addr@ == k;
            if j < i {
                assert(s1[j] == s0[j]);
                assert(find_entry(s1, k) == Some(s1[j]));
            } else {
                assert(s1[j + 1] == s0[j]);
                assert(find_entry(s1, k) == Some(s1[j + 1]));
            }
            assert(find_entry(s0, k) == Some(s0[j]));
        } else {
            assert forall|j: int| 0 <= j < s1.len() implies s1[j].addr@ != k by {
                if j < i {
                    assert(s1[j] == s0[j]);
                    assert(s0[j].addr@ != k);
                } else if j == i {
                } else {
                    assert(s1[j] == s0[j - 1]);
                    assert(s0[j - 1].addr@ != k);
                }
            }
            assert forall|j: int| 0 <= j < s0.len() implies s0[j].addr@ != k by {}
        }
    }
}

impl VestingState {
    /// Index of the record for `addr`, creating an empty record at its
    /// sorted position when none exists. Every other lookup is untouched.
    fn upsert_index(&mut self, addr: &String) -> (i: usize)
        requires
            old(self).wf(),
        ensures
            final(self).wf(),
            final(self).config == old(self).config,
            final(self).status == old(self).status,
            i < final(self).entries@.len(),
            final(self).entries@[i as int].addr@ == addr@,
            final(self).entry_of(addr@) == Some(final(self).entries@[i as int]),
            forall|k: Seq<char>| k != addr@ ==> final(self).entry_of(k) == old(self).entry_of(k),
            match old(self).entry_of(addr@) {
                Some(e) => {
                    &&& final(self).entries@ == old(self).entries@
                    &&& final(self).entries@[i as int] == e
                },
                None => {
                    &&& final(self).entries@ == old(self).entries@.insert(
                        i as int,
                        final(self).entries@[i as int],
                    )
                    &&& final(self).entries@[i as int].deposit is None
                    &&& final(self).entries@[i as int].user_data is None
                    &&& final(self).entries@[i as int].released is None
                    &&& final(self).entries@[i as int].refund_paid is None
                },
            },
    {
        match self.locate(addr) {
            Ok(i) => i,
            Err(i) => {
                let blank = InvestorEntry {
                    addr: addr.clone(),
                    deposit: None,
                    user_data: None,
                    released: None,
                    refund_paid: None,
                };
                proof {
                    lemma_insert_entry(
                        self.entries@,
                        self.entries@.insert(i as int, blank),
                        i as int,
                        blank,
                    );
                }
                self.entries.insert(i, blank);
                i
            },
        }
    }

    /// Appends one accepted deposit for `addr`: the history grows by one
    /// entry and the running total by its amount; nothing else changes.
    pub fn record_deposit(&mut self, addr: &String, date: u64, amount: u128)
        requires
            old(self).wf(),
            old(self).total_deposited_of(addr@) + amount <= u128::MAX,
        ensures
            final(self).wf(),
            final(self).config == old(self).config,
            final(self).status == old(self).status,
            final(self).total_deposited_of(addr@) == old(self).total_deposited_of(addr@) + amount,
            final(self).history_of(addr@) == old(self).history_of(addr@).push(
                DepositInfo { date, amount },
            ),
            final(self).has_deposit(addr@),
            final(self).allocation_of(addr@) == old(self).allocation_of(addr@),
            final(self).refunded_of(addr@) == old(self).refunded_of(addr@),
            final(self).released_of(addr@) == old(self).released_of(addr@),
            final(self).refund_marker_of(addr@) == old(self).refund_marker_of(addr@),
            forall|k: Seq<char>| k != addr@ ==> final(self).entry_of(k) == old(self).entry_of(k),
    {
        let i = self.upsert_index(addr);
        let ghost mid = *self;
        let e = self.entries.remove(i);
        let InvestorEntry { addr: key, deposit, user_data, released, refund_paid } = e;
        let new_deposit = match deposit {
            Some(d) => {
                let DepositData { total_deposited, mut deposit_history } = d;
                deposit_history.push(DepositInfo { date, amount });
                DepositData { total_deposited: total_deposited + amount, deposit_history }
            },
            None => {
                let mut deposit_history: Vec<DepositInfo> = Vec::new();
                deposit_history.push(DepositInfo { date, amount });
                DepositData { total_deposited: amount, deposit_history }
            },
        };
        let new_entry = InvestorEntry {
            addr: key,
            deposit: Some(new_deposit),
            user_data,
            released,
            refund_paid,
        };
        proof {
            assert(mid.entries@.remove(i as int).insert(i as int, new_entry) =~= mid.entries@
                .update(i as int, new_entry));
            lemma_replace_entry(
                mid.entries@,
                mid.entries@.update(i as int, new_entry),
                i as int,
                new_entry,
            );
        }
        self.entries.insert(i, new_entry);
        proof {
            assert(final(self).history_of(addr@) =~= old(self).history_of(addr@).push(
                DepositInfo { date, amount },
            ));
        }
    }

    /// Overwrites the allocation record of `addr` outright; nothing else
    /// changes.
    pub fn set_user_data(&mut self, addr: &String, allocation: u128, refunded: u128)
        requires
            old(self).wf(),
        ensures
            final(self).wf(),
            final(self).config == old(self).config,
            final(self).status == old(self).status,
            final(self).allocation_of(addr@) == allocation,
            final(self).refunded_of(addr@) == refunded,
            final(self).deposit_of(addr@) == old(self).deposit_of(addr@),
            final(self).released_of(addr@) == old(self).released_of(addr@),
            final(self).refund_marker_of(addr@) == old(self).refund_marker_of(addr@),
            forall|k: Seq<char>| k != addr@ ==> final(self).entry_of(k) == old(self).entry_of(k),
    {
        let i = self.upsert_index(addr);
        let ghost mid = *self;
        let e = self.entries.remove(i);
        let InvestorEntry { addr: key, deposit, user_data: _, released, refund_paid } = e;
        let new_entry = InvestorEntry {
            addr: key,
            deposit,
            user_data: Some(UserData { allocation, refunded }),
            released,
            refund_paid,
        };
        proof {
            assert(mid.entries@.remove(i as int).insert(i as int, new_entry) =~= mid.entries@
                .update(i as int, new_entry));
            lemma_replace_entry(
                mid.entries@,
                mid.entries@.update(i as int, new_entry),
                i as int,
                new_entry,
            );
        }
        self.entries.insert(i, new_entry);
    }

    /// Records the vested amount as of this claim; nothing else changes.
    pub fn set_released(&mut self, addr: &String, amount: u128)
        requires
            old(self).wf(),
        ensures
            final(self).wf(),
            final(self).config == old(self).config,
            final(self).status == old(self).status,
            final(self).released_of(addr@) == amount,
            final(self).deposit_of(addr@) == old(self).deposit_of(addr@),
            final(self).allocation_of(addr@) == old(self).allocation_of(addr@),
            final(self).refunded_of(addr@) == old(self).refunded_of(addr@),
            final(self).refund_marker_of(addr@) == old(self).refund_marker_of(addr@),
            forall|k: Seq<char>| k != addr@ ==> final(self).entry_of(k) == old(self).entry_of(k),
    {
        let i = self.upsert_index(addr);
        let ghost mid = *self;
        let e = self.entries.remove(i);
        let InvestorEntry { addr: key, deposit, user_data, released: _, refund_paid } = e;
        let new_entry = InvestorEntry {
            addr: key,
            deposit,
            user_data,
            released: Some(amount),
            refund_paid,
        };
        proof {
            assert(mid.entries@.remove(i as int).insert(i as int, new_entry) =~= mid.entries@
                .update(i as int, new_entry));
            lemma_replace_entry(
                mid.entries@,
                mid.entries@.update(i as int, new_entry),
                i as int,
                new_entry,
            );
        }
        self.entries.insert(i, new_entry);
    }

    /// Marks the one-time refund as paid, at the amount paid; nothing else
    /// changes.
    pub fn set_refund_marker(&mut self, addr: &String, amount: u128)
        requires
            old(self).wf(),
        ensures
            final(self).wf(),
            final(self).config == old(self).config,
            final(self).status == old(self).status,
            final(self).refund_marker_of(addr@) == Some(amount),
            final(self).deposit_of(addr@) == old(self).deposit_of(addr@),
            final(self).allocation_of(addr@) == old(self).allocation_of(addr@),
            final(self).refunded_of(addr@) == old(self).refunded_of(addr@),
            final(self).released_of(addr@) == old(self).released_of(addr@),
            forall|k: Seq<char>| k != addr@ ==> final(self).entry_of(k) == old(self).entry_of(k),
    {
        let i = self.upsert_index(addr);
        let ghost mid = *self;
        let e = self.entries.remove(i);
        let InvestorEntry { addr: key, deposit, user_data, released, refund_paid: _ } = e;
        let new_entry = InvestorEntry {
            addr: key,
            deposit,
            user_data,
            released,
            refund_paid: Some(amount),
        };
        proof {
            assert(mid.entries@.remove(i as int).insert(i as int, new_entry) =~= mid.entries@
                .update(i as int, new_entry));
            lemma_replace_entry(
                mid.entries@,
                mid.entries@.update(i as int, new_entry),
                i as int,
                new_entry,
            );
        }
        self.entries.insert(i, new_entry);
    }

    /// The allocation record of `addr`, zero when absent.
    pub fn get_user_data(&self, addr: &String) -> (r: UserData)
        requires
            self.wf(),
        ensures
            r.allocation == self.allocation_of(addr@),
            r.refunded == self.refunded_of(addr@),
    {
        match self.locate(addr) {
            Ok(i) => match self.entries[i].user_data {
                Some(u) => u,
                None => UserData { allocation: 0, refunded: 0 },
            },
            Err(_) => UserData { allocation: 0, refunded: 0 },
        }
    }

    /// The cumulative released amount of `addr`, zero when absent.
    pub fn get_released(&self, addr: &String) -> (r: u128)
        requires
            self.wf(),
        ensures
            r == self.released_of(addr@),
    {
        match self.locate(addr) {
            Ok(i) => match self.entries[i].released {
                Some(v) => v,
                None => 0,
            },
            Err(_) => 0,
        }
    }

    /// The one-time refund marker of `addr`.
    pub fn get_refund_marker(&self, addr: &String) -> (r: Option<u128>)
        requires
            self.wf(),
        ensures
            r == self.refund_marker_of(addr@),
    {
        match self.locate(addr) {
            Ok(i) => self.entries[i].refund_paid,
            Err(_) => None,
        }
    }

    /// The running deposit total of `addr`, zero when absent.
    pub fn get_total_deposited(&self, addr: &String) -> (r: u128)
        requires
            self.wf(),
        ensures
            r == self.total_deposited_of(addr@),
    {
        match self.locate(addr) {
            Ok(i) => match &self.entries[i].deposit {
                Some(d) => d.total_deposited,
                None => 0,
            },
            Err(_) => 0,
        }
    }

    /// Whether `addr` has a deposit record.
    pub fn has_deposit_record(&self, addr: &String) -> (r: bool)
        requires
            self.wf(),
        ensures
            r == self.has_deposit(addr@),
    {
        match self.locate(addr) {
            Ok(i) => self.entries[i].deposit.is_some(),
            Err(_) => false,
        }
    }

    /// A copy of the deposit history of `addr`, empty when absent.
    pub fn get_history(&self, addr: &String) -> (r: Vec<DepositInfo>)
        requires
            self.wf(),
        ensures
            r@ == self.history_of(addr@),
    {
        match self.locate(addr) {
            Ok(i) => match &self.entries[i].deposit {
                Some(d) => {
                    let n = d.deposit_history.len();
                    let mut out: Vec<DepositInfo> = Vec::new();
                    let mut j: usize = 0;
                    while j < n
                        invariant
                            j <= n,
                            n == d.deposit_history@.len(),
                            out@ == d.deposit_history@.take(j as int),
                        decreases n - j,
                    {
                        out.push(d.deposit_history[j]);
                        proof {
                            assert(d.deposit_history@.take(j as int).push(
                                d.deposit_history@[j as int],
                            ) =~= d.deposit_history@.take(j as int + 1));
                        }
                        j = j + 1;
                    }
                    proof {
                        assert(d.deposit_history@.take(n as int) =~= d.deposit_history@);
                    }
                    out
                },
                None => Vec::new(),
            },
            Err(_) => {
                proof {
                    assert(self.history_of(addr@) =~= Seq::<DepositInfo>::empty());
                }
                Vec::new()
            },
        }
    }
}

} // verus!
