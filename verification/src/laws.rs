//! Laws of the ledger: properties relating several operations, stated over
//! the same spec functions the operations' contracts use, and proved once and
//! for all.

use vstd::prelude::*;

use crate::contract::{
    claim_behavior, claimable_query_behavior, spec_claimable, spec_list, spec_refund_payout,
    spec_vested,
};
use crate::error::ContractError;
use crate::msg::Response;
use crate::order::key_lt;
use crate::state::{
    find_entry, lemma_sorted_find, sorted_keys, InvestorEntry, VestingState,
};
use crate::vesting::{lemma_vested_amount_converges, lemma_vested_amount_monotonic};

verus! {

/// The claimable amount never drifts between the mutation path and the
/// read-only path: a claim and the claim projection, run at the same instant
/// against the same prior history, report the same token amount.
pub proof fn lemma_claim_query_agree(
    s0: VestingState,
    s1: VestingState,
    k: Seq<char>,
    now: u64,
    r: Result<Response, ContractError>,
    q: crate::msg::ClaimableAmountResponse,
)
    requires
        s0.wf(),
        s0.status.can_withdraw,
        now >= s0.config.unlock_time(),
        claim_behavior(s0, s1, k, now, r),
        claimable_query_behavior(s0, k, now, q),
    ensures
        r is Ok,
        match r {
            Ok(resp) => resp.attributes@[1].value@ == q.token_avaiable_to_claim@,
            Err(_) => false,
        },
{
}

/// The vested amount is monotonic, non-decreasing in time, for a fixed
/// allocation and schedule.
pub proof fn lemma_vested_monotonic(s: VestingState, k: Seq<char>, t1: u64, t2: u64)
    requires
        s.wf(),
        s.config.unlock_time() <= t1 <= t2,
    ensures
        spec_vested(s, k, t1) <= spec_vested(s, k, t2),
{
    lemma_vested_amount_monotonic(
        s.allocation_of(k),
        (t1 - s.config.unlock_time()) as u64,
        (t2 - s.config.unlock_time()) as u64,
        s.config.vesting_time,
    );
}

/// The refund is paid at most once: after a claim that paid it, another
/// claim at the same instant has no refund left to pay, reports a returned
/// amount of zero, and sends no further native-asset transfer.
pub proof fn lemma_refund_paid_once(
    s0: VestingState,
    s1: VestingState,
    s2: VestingState,
    k: Seq<char>,
    now: u64,
    r1: Result<Response, ContractError>,
    r2: Result<Response, ContractError>,
)
    requires
        s0.wf(),
        s0.status.can_withdraw,
        claim_behavior(s0, s1, k, now, r1),
        r1 is Ok,
        claim_behavior(s1, s2, k, now, r2),
    ensures
        spec_refund_payout(s1, k) == 0,
        match r2 {
            Ok(resp2) => {
                &&& resp2.attributes@.len() == 3
                &&& resp2.attributes@[2].value@ == crate::numeral::dec_str(0)
                &&& forall|m: int|
                    0 <= m < resp2.messages@.len() ==> #[trigger] resp2.messages@[m] is Token
            },
            Err(_) => true,
        },
{
}

/// The released record never decreases across a claim: it holds the vested
/// amount as of the most recent claim, and that amount only grows with time.
pub proof fn lemma_released_monotonic(
    s0: VestingState,
    s1: VestingState,
    k: Seq<char>,
    now: u64,
    r: Result<Response, ContractError>,
)
    requires
        s0.wf(),
        claim_behavior(s0, s1, k, now, r),
        (s0.status.can_withdraw && now >= s0.config.unlock_time()) ==> s0.released_of(k)
            <= spec_vested(s0, k, now),
    ensures
        s1.released_of(k) >= s0.released_of(k),
{
}

/// Once fully vested, the claimable amount is exactly the allocation less
/// what was already released: the rounded-down linear share leaves no
/// residue behind.
pub proof fn lemma_fully_vested_claimable(s: VestingState, k: Seq<char>, now: u64)
    requires
        s.wf(),
        now >= s.config.unlock_time() + s.config.vesting_time,
    ensures
        spec_vested(s, k, now) == s.allocation_of(k),
        spec_claimable(s, k, now) == s.allocation_of(k) - s.released_of(k),
{
    lemma_vested_amount_converges(
        s.allocation_of(k),
        (now - s.config.unlock_time()) as u64,
        s.config.vesting_time,
    );
}

/// What one row of the listing reads from a record.
pub open spec fn entry_total(e: InvestorEntry) -> u128 {
    match e.deposit {
        Some(d) => d.total_deposited,
        None => 0,
    }
}

/// Some record with a deposit yields this row.
pub open spec fn row_sound(s: Seq<InvestorEntry>, row: (Seq<char>, u128)) -> bool {
    exists|i: int|
        0 <= i < s.len() && (#[trigger] s[i]).addr@ == row.0 && s[i].deposit is Some
            && entry_total(s[i]) == row.1
}

/// The record at `i` has its row in the listing.
pub open spec fn row_present(s: Seq<InvestorEntry>, i: int) -> bool {
    exists|j: int|
        0 <= j < spec_list(s).len() && (#[trigger] spec_list(s)[j]) == (
        s[i].addr@,
        entry_total(s[i]),
        )
}

/// On a sorted ledger the listing's rows are ascending by identity, each row
/// comes from a record with a deposit, and every record with a deposit has
/// its row.
proof fn lemma_spec_list_rows(s: Seq<InvestorEntry>)
    requires
        sorted_keys(s),
    ensures
        forall|a: int, b: int|
            0 <= a < b < spec_list(s).len() ==> key_lt(
                (#[trigger] spec_list(s)[a]).0,
                (#[trigger] spec_list(s)[b]).0,
            ),
        forall|j: int| 0 <= j < spec_list(s).len() ==> #[trigger] row_sound(s, spec_list(s)[j]),
        forall|i: int|
            0 <= i < s.len() && (#[trigger] s[i]).deposit is Some ==> row_present(s, i),
    decreases s.len(),
{
    if s.len() == 0 {
    } else {
        let t = s.drop_last();
        assert forall|a: int, b: int|
            #![trigger t[a], t[b]]
            0 <= a < b < t.len() implies key_lt(t[a].addr@, t[b].addr@) by {
            assert(t[a] == s[a]);
            assert(t[b] == s[b]);
        }
        lemma_spec_list_rows(t);
        let rows = spec_list(s);
        let prefix = spec_list(t);
        // Rows of the shorter ledger keep their place and meaning.
        assert forall|j: int| 0 <= j < prefix.len() implies rows[j] == prefix[j] by {}
        assert forall|j: int| 0 <= j < rows.len() implies #[trigger] row_sound(s, rows[j]) by {
            if j < prefix.len() {
                assert(row_sound(t, prefix[j]));
                let i = choose|i: int|
                    0 <= i < t.len() && (#[trigger] t[i]).addr@ == prefix[j].0 && t[i].deposit
                        is Some && entry_total(t[i]) == prefix[j].1;
                assert(s[i] == t[i]);
                assert(s[i].addr@ == rows[j].0 && s[i].deposit is Some && entry_total(s[i])
                    == rows[j].1);
            } else {
                let i = s.len() - 1;
                assert(s[i].addr@ == rows[j].0 && s[i].deposit is Some && entry_total(s[i])
                    == rows[j].1);
            }
        }
        assert forall|a: int, b: int|
            0 <= a < b < rows.len() implies key_lt(
            (#[trigger] rows[a]).0,
            (#[trigger] rows[b]).0,
        ) by {
            if b < prefix.len() {
                assert(key_lt(prefix[a].0, prefix[b].0));
            } else {
                // The last row comes from the last record; the earlier row
                // from an earlier record, which sorts strictly below it.
                assert(row_sound(t, prefix[a]));
                let i = choose|i: int|
                    0 <= i < t.len() && (#[trigger] t[i]).addr@ == prefix[a].0 && t[i].deposit
                        is Some && entry_total(t[i]) == prefix[a].1;
                assert(s[i] == t[i]);
                assert(key_lt(s[i].addr@, s[s.len() - 1].addr@));
            }
        }
        assert forall|i: int|
            0 <= i < s.len() && (#[trigger] s[i]).deposit is Some implies row_present(s, i) by {
            if i < s.len() - 1 {
                assert(t[i] == s[i]);
                assert(row_present(t, i));
                let j = choose|j: int|
                    0 <= j < prefix.len() && (#[trigger] prefix[j]) == (t[i].addr@, entry_total(
                        t[i],
                    ));
                assert(rows[j] == (s[i].addr@, entry_total(s[i])));
            } else {
                let j = prefix.len() as int;
                assert(rows[j] == (s[i].addr@, entry_total(s[i])));
            }
        }
    }
}

/// The listing is exactly the deposit records in ascending key order: rows
/// ascend strictly by identity, each row reports the recorded total of its
/// investor, and every investor with a deposit record appears.
pub proof fn lemma_list_ascending_and_exact(s: VestingState)
    requires
        s.wf(),
    ensures
        forall|a: int, b: int|
            0 <= a < b < spec_list(s.entries@).len() ==> key_lt(
                (#[trigger] spec_list(s.entries@)[a]).0,
                (#[trigger] spec_list(s.entries@)[b]).0,
            ),
        forall|j: int|
            0 <= j < spec_list(s.entries@).len() ==> s.has_deposit(
                (#[trigger] spec_list(s.entries@)[j]).0,
            ) && spec_list(s.entries@)[j].1 == s.total_deposited_of(spec_list(s.entries@)[j].0),
        forall|i: int|
            0 <= i < s.entries@.len() && (#[trigger] s.entries@[i]).deposit is Some ==> exists|
                j: int,
            |
                0 <= j < spec_list(s.entries@).len() && (#[trigger] spec_list(s.entries@)[j]) == (
                s.entries@[i].addr@,
                s.total_deposited_of(s.entries@[i].addr@),
                ),
{
    lemma_spec_list_rows(s.entries@);
    let rows = spec_list(s.entries@);
    assert forall|j: int| 0 <= j < rows.len() implies s.has_deposit((#[trigger] rows[j]).0)
        && rows[j].1 == s.total_deposited_of(rows[j].0) by {
        assert(row_sound(s.entries@, rows[j]));
        let i = choose|i: int|
            0 <= i < s.entries@.len() && (#[trigger] s.entries@[i]).addr@ == rows[j].0
                && s.entries@[i].deposit is Some && entry_total(s.entries@[i]) == rows[j].1;
        lemma_sorted_find(s.entries@, rows[j].0);
        assert(find_entry(s.entries@, rows[j].0) == Some(s.entries@[i]));
    }
    assert forall|i: int|
        0 <= i < s.entries@.len() && (#[trigger] s.entries@[i]).deposit is Some implies exists|
        j: int,
    |
        0 <= j < rows.len() && (#[trigger] rows[j]) == (
        s.entries@[i].addr@,
        s.total_deposited_of(s.entries@[i].addr@),
        ) by {
        lemma_sorted_find(s.entries@, s.entries@[i].addr@);
        assert(find_entry(s.entries@, s.entries@[i].addr@) == Some(s.entries@[i]));
        assert(s.total_deposited_of(s.entries@[i].addr@) == entry_total(s.entries@[i]));
        assert(row_present(s.entries@, i));
        let j = choose|j: int|
            0 <= j < rows.len() && (#[trigger] rows[j]) == (
            s.entries@[i].addr@,
            entry_total(s.entries@[i]),
            );
        assert(rows[j] == (s.entries@[i].addr@, s.total_deposited_of(s.entries@[i].addr@)));
    }
}

} // verus!
