//! How much quota a transaction, and a whole block, may use.

use crate::bytes::Address;
use crate::crypto::{address_lower_hex, lower_hex};
use crate::table::Table;
use vstd::prelude::*;

verus! {

/// The map that a list of limits stands for; of two limits for one account the later one counts.
pub open spec fn limits_map(limits: Seq<(String, u64)>) -> Map<Seq<char>, u64>
    decreases limits.len(),
{
    if limits.len() == 0 {
        Map::empty()
    } else {
        limits_map(limits.drop_last()).insert(limits.last().0@, limits.last().1)
    }
}

/// How much quota one account may use in one block.
#[derive(Debug, PartialEq, Eq)]
pub struct AccountGasLimit {
    /// The limit of every account that has none of its own.
    pub common_gas_limit: u64,
    /// The accounts that have a limit of their own, by their address in lower-case hexadecimal.
    pub specific_gas_limit: Vec<(String, u64)>,
}

#[verifier::ext_equal]
pub struct AccountGasLimitView {
    pub common_gas_limit: u64,
    pub specific_gas_limit: Map<Seq<char>, u64>,
}

impl AccountGasLimitView {
    /// No account may use anything.
    pub open spec fn zero() -> AccountGasLimitView {
        AccountGasLimitView { common_gas_limit: 0, specific_gas_limit: Map::empty() }
    }

    /// What the account at `address` may use.
    pub open spec fn limit_of(self, address: Seq<u8>) -> u64 {
        if self.specific_gas_limit.contains_key(lower_hex(address)) {
            self.specific_gas_limit[lower_hex(address)]
        } else {
            self.common_gas_limit
        }
    }
}

impl View for AccountGasLimit {
    type V = AccountGasLimitView;

    open spec fn view(&self) -> AccountGasLimitView {
        AccountGasLimitView {
            common_gas_limit: self.common_gas_limit,
            specific_gas_limit: limits_map(self.specific_gas_limit@),
        }
    }
}

impl AccountGasLimit {
    pub fn new() -> (limits: Self)
        ensures
            limits@ == AccountGasLimitView::zero(),
    {
        AccountGasLimit { common_gas_limit: 0, specific_gas_limit: Vec::new() }
    }

    /// What the account at `address` may use.
    pub fn limit_of(&self, address: &Address) -> (limit: u64)
        ensures
            limit == self@.limit_of(address@),
    {
        let name = address_lower_hex(address);
        let limits = &self.specific_gas_limit;
        let mut i: usize = limits.len();
        assert(limits@.take(i as int) =~= limits@);
        while i > 0
            invariant
                i <= limits.len(),
                limits@ == self.specific_gas_limit@,
                name@ == lower_hex(address@),
                limits_map(limits@).contains_key(name@) == limits_map(
                    limits@.take(i as int),
                ).contains_key(name@),
                limits_map(limits@).contains_key(name@) ==> limits_map(limits@)[name@]
                    == limits_map(limits@.take(i as int))[name@],
            decreases i,
        {
            assert(limits@.take(i as int).drop_last() =~= limits@.take(i - 1));
            i -= 1;
            if limits[i].0.eq(&name) {
                return limits[i].1;
            }
        }
        self.common_gas_limit
    }
}

impl Clone for AccountGasLimit {
    fn clone(&self) -> (copy: Self)
        ensures
            copy@ == self@,
    {
        let mut specific_gas_limit: Vec<(String, u64)> = Vec::new();
        let mut i: usize = 0;
        while i < self.specific_gas_limit.len()
            invariant
                i <= self.specific_gas_limit.len(),
                limits_map(specific_gas_limit@) == limits_map(
                    self.specific_gas_limit@.take(i as int),
                ),
            decreases self.specific_gas_limit.len() - i,
        {
            let ghost before = specific_gas_limit@;
            let (account, limit) = &self.specific_gas_limit[i];
            specific_gas_limit.push((account.clone(), *limit));
            assert(specific_gas_limit@.drop_last() =~= before);
            assert(self.specific_gas_limit@.take(i + 1).drop_last()
                =~= self.specific_gas_limit@.take(i as int));
            i += 1;
        }
        assert(self.specific_gas_limit@.take(i as int) =~= self.specific_gas_limit@);
        AccountGasLimit { common_gas_limit: self.common_gas_limit, specific_gas_limit }
    }
}

/// A sender, by address, and the quota that one transaction of the sender asks for.
pub type Spending = (Seq<u8>, u64);

/// The view of a list of spendings.
pub open spec fn spendings_view(spendings: Seq<(Address, u64)>) -> Seq<Spending> {
    spendings.map_values(|s: (Address, u64)| (s.0@, s.1))
}

/// The quota that all of `spendings` ask for.
pub open spec fn total(spendings: Seq<Spending>) -> int
    decreases spendings.len(),
{
    if spendings.len() == 0 {
        0
    } else {
        total(spendings.drop_last()) + spendings.last().1
    }
}

/// The quota that those of `spendings` ask for that `sender` made.
pub open spec fn total_of(spendings: Seq<Spending>, sender: Seq<u8>) -> int
    decreases spendings.len(),
{
    if spendings.len() == 0 {
        0
    } else {
        total_of(spendings.drop_last(), sender) + if spendings.last().0 == sender {
            spendings.last().1 as int
        } else {
            0
        }
    }
}

/// A block may hold `spendings`: together they stay within the limit of the block, and, where
/// accounts are limited too, those of each sender stay within the limit of the sender.
pub open spec fn block_quota_fits(
    spendings: Seq<Spending>,
    block_gas_limit: u64,
    check_quota: bool,
    limits: AccountGasLimitView,
) -> bool {
    &&& total(spendings) <= block_gas_limit
    &&& check_quota ==> forall|sender: Seq<u8>| #[trigger]
        total_of(spendings, sender) <= limits.limit_of(sender)
}

/// One transaction of `sender` may ask for `quota`.
pub open spec fn tx_quota_fits(
    quota: u64,
    sender: Seq<u8>,
    block_gas_limit: u64,
    check_quota: bool,
    limits: AccountGasLimitView,
) -> bool {
    &&& quota <= block_gas_limit
    &&& check_quota ==> quota <= limits.limit_of(sender)
}

/// What is asked for adds up to no less when more is added.
pub(crate) proof fn totals_grow(spendings: Seq<Spending>, n: int, sender: Seq<u8>)
    requires
        0 <= n <= spendings.len(),
    ensures
        0 <= total(spendings.take(n)) <= total(spendings),
        0 <= total_of(spendings.take(n), sender) <= total_of(spendings, sender),
    decreases spendings.len(),
{
    if spendings.len() == 0 {
        assert(spendings.take(n) =~= spendings);
    } else if n == spendings.len() {
        assert(spendings.take(n) =~= spendings);
        totals_grow(spendings.drop_last(), n - 1, sender);
        assert(spendings.drop_last().take(n - 1) =~= spendings.drop_last());
    } else {
        totals_grow(spendings.drop_last(), n, sender);
        assert(spendings.drop_last().take(n) =~= spendings.take(n));
    }
}

/// `left` says what each sender of `seen` may still use.
spec fn is_left(
    left: Map<Seq<u8>, u64>,
    seen: Seq<Spending>,
    limits: AccountGasLimitView,
) -> bool {
    forall|sender: Seq<u8>|
        if left.contains_key(sender) {
            left[sender] == limits.limit_of(sender) - #[trigger] total_of(seen, sender)
        } else {
            total_of(seen, sender) == 0
        }
}

/// Whether a block may hold `spendings`.
pub fn block_quota_allows(
    spendings: &Vec<(Address, u64)>,
    block_gas_limit: u64,
    check_quota: bool,
    limits: &AccountGasLimit,
) -> (allows: bool)
    ensures
        allows == block_quota_fits(
            spendings_view(spendings@),
            block_gas_limit,
            check_quota,
            limits@,
        ),
{
    let ghost all = spendings_view(spendings@);
    // What each sender seen so far may still use.
    let mut left: Table<20, u64> = Table::new();
    let mut n: u64 = block_gas_limit;
    let mut i: usize = 0;
    while i < spendings.len()
        invariant
            i <= spendings.len(),
            all == spendings_view(spendings@),
            n == block_gas_limit - total(all.take(i as int)),
            check_quota ==> is_left(left@, all.take(i as int), limits@),
        decreases spendings.len() - i,
    {
        let (sender, quota) = spendings[i];
        let ghost seen = all.take(i as int);
        let ghost next = all.take(i + 1);
        assert(next.drop_last() =~= seen);
        assert(next.last() == (sender@, quota));
        proof {
            totals_grow(all, i + 1, sender@);
        }
        if n < quota {
            return false;
        }
        if check_quota {
            let limit: u64 = match left.get(&sender) {
                Some(rest) => rest,
                None => limits.limit_of(&sender),
            };
            assert(limit == limits@.limit_of(sender@) - total_of(seen, sender@));
            if limit < quota {
                assert(total_of(all, sender@) > limits@.limit_of(sender@));
                return false;
            }
            left.set(sender, limit - quota);
            assert forall|other: Seq<u8>|
                if left@.contains_key(other) {
                    left@[other] == limits@.limit_of(other) - #[trigger] total_of(next, other)
                } else {
                    total_of(next, other) == 0
                } by {
                assert(total_of(next, other) == total_of(seen, other) + if other == sender@ {
                    quota as int
                } else {
                    0
                });
            }
        }
        n -= quota;
        i += 1;
    }
    assert(all.take(i as int) =~= all);
    if check_quota {
        assert forall|sender: Seq<u8>| #[trigger]
            total_of(all, sender) <= limits@.limit_of(sender) by {
            if left@.contains_key(sender) {
                assert(left@[sender] == limits@.limit_of(sender) - total_of(all, sender));
            }
        }
    }
    true
}

/// Whether one transaction of `sender` may ask for `quota`.
pub fn tx_quota_allows(
    quota: u64,
    sender: &Address,
    block_gas_limit: u64,
    check_quota: bool,
    limits: &AccountGasLimit,
) -> (allows: bool)
    ensures
        allows == tx_quota_fits(quota, sender@, block_gas_limit, check_quota, limits@),
{
    if quota > block_gas_limit {
        return false;
    }
    !check_quota || quota <= limits.limit_of(sender)
}

/// In a block that stays within its quota, every transaction stays within its own.
pub proof fn block_quota_covers_each_tx(
    spendings: Seq<Spending>,
    block_gas_limit: u64,
    check_quota: bool,
    limits: AccountGasLimitView,
    i: int,
)
    requires
        block_quota_fits(spendings, block_gas_limit, check_quota, limits),
        0 <= i < spendings.len(),
    ensures
        tx_quota_fits(
            spendings[i].1,
            spendings[i].0,
            block_gas_limit,
            check_quota,
            limits,
        ),
{
    let (sender, quota) = spendings[i];
    totals_grow(spendings, i, sender);
    totals_grow(spendings, i + 1, sender);
    assert(spendings.take(i + 1).drop_last() =~= spendings.take(i));
    assert(total_of(spendings, sender) >= quota);
}

/// Leaving out transactions from the end of a block never breaks its quota.
pub proof fn block_quota_holds_for_prefix(
    spendings: Seq<Spending>,
    block_gas_limit: u64,
    check_quota: bool,
    limits: AccountGasLimitView,
    n: int,
)
    requires
        block_quota_fits(spendings, block_gas_limit, check_quota, limits),
        0 <= n <= spendings.len(),
    ensures
        block_quota_fits(spendings.take(n), block_gas_limit, check_quota, limits),
{
    totals_grow(spendings, n, Seq::empty());
    assert forall|sender: Seq<u8>| check_quota implies #[trigger] total_of(
        spendings.take(n),
        sender,
    ) <= limits.limit_of(sender) by {
        totals_grow(spendings, n, sender);
        assert(total_of(spendings, sender) <= limits.limit_of(sender));
    }
}

/// Taking one transaction out takes what it asks for out of the totals.
proof fn totals_without_one(spendings: Seq<Spending>, i: int, sender: Seq<u8>)
    requires
        0 <= i < spendings.len(),
    ensures
        total(spendings) == total(spendings.remove(i)) + spendings[i].1,
        total_of(spendings, sender) == total_of(spendings.remove(i), sender) + if spendings[i].0
            == sender {
            spendings[i].1 as int
        } else {
            0
        },
    decreases spendings.len(),
{
    let rest = spendings.remove(i);
    if i == spendings.len() - 1 {
        assert(rest =~= spendings.drop_last());
    } else {
        totals_without_one(spendings.drop_last(), i, sender);
        assert(rest.drop_last() =~= spendings.drop_last().remove(i));
        assert(rest.last() == spendings.last());
    }
}

/// Part of what is asked for adds up to no more than the whole.
proof fn totals_of_part(part: Seq<Spending>, whole: Seq<Spending>, sender: Seq<u8>)
    requires
        part.to_multiset().subset_of(whole.to_multiset()),
    ensures
        total(part) <= total(whole),
        total_of(part, sender) <= total_of(whole, sender),
    decreases part.len(),
{
    broadcast use vstd::seq_lib::group_to_multiset_ensures;

    if part.len() == 0 {
        totals_grow(whole, 0, sender);
    } else {
        let last = part.last();
        let before = part.drop_last();
        assert(before.push(last) =~= part);
        assert(part.to_multiset().count(last) > 0);
        assert(whole.to_multiset().count(last) > 0);
        assert(whole.contains(last));
        let i = choose|i: int| 0 <= i < whole.len() && whole[i] == last;
        let rest = whole.remove(i);
        assert(rest.to_multiset() =~= whole.to_multiset().remove(last));
        assert(before.to_multiset().insert(last) =~= part.to_multiset());
        assert forall|s: Spending| before.to_multiset().count(s) <= rest.to_multiset().count(s) by {
            assert(part.to_multiset().count(s) <= whole.to_multiset().count(s));
        }
        totals_of_part(before, rest, sender);
        totals_without_one(whole, i, sender);
    }
}

/// Leaving out any transactions of a block, and ordering the others anew, never breaks its quota.
pub proof fn block_quota_holds_for_any_part(
    part: Seq<Spending>,
    whole: Seq<Spending>,
    block_gas_limit: u64,
    check_quota: bool,
    limits: AccountGasLimitView,
)
    requires
        block_quota_fits(whole, block_gas_limit, check_quota, limits),
        part.to_multiset().subset_of(whole.to_multiset()),
    ensures
        block_quota_fits(part, block_gas_limit, check_quota, limits),
{
    totals_of_part(part, whole, Seq::empty());
    assert forall|sender: Seq<u8>| check_quota implies #[trigger] total_of(part, sender)
        <= limits.limit_of(sender) by {
        totals_of_part(part, whole, sender);
        assert(total_of(whole, sender) <= limits.limit_of(sender));
    }
}

/// The order of the transactions of a block has no bearing on its quota.
pub proof fn block_quota_ignores_order(
    spendings: Seq<Spending>,
    reordered: Seq<Spending>,
    block_gas_limit: u64,
    check_quota: bool,
    limits: AccountGasLimitView,
)
    requires
        spendings.to_multiset() == reordered.to_multiset(),
    ensures
        block_quota_fits(spendings, block_gas_limit, check_quota, limits) == block_quota_fits(
            reordered,
            block_gas_limit,
            check_quota,
            limits,
        ),
{
    if block_quota_fits(spendings, block_gas_limit, check_quota, limits) {
        block_quota_holds_for_any_part(reordered, spendings, block_gas_limit, check_quota, limits);
    }
    if block_quota_fits(reordered, block_gas_limit, check_quota, limits) {
        block_quota_holds_for_any_part(spendings, reordered, block_gas_limit, check_quota, limits);
    }
}

/// A block stays within its quota exactly if the sum of all that its transactions ask for is within
/// the limit of the block and, where accounts are limited, the sum of what each account asks for is
/// within the account's own limit, or the common one if it has none of its own.
pub proof fn quota_is_about_sums(
    spendings: Seq<Spending>,
    block_gas_limit: u64,
    check_quota: bool,
    limits: AccountGasLimitView,
)
    ensures
        ({
            let sum = |l: Seq<Spending>| l.fold_left(0int, |sum: int, s: Spending| sum + s.1);
            let of = |account: Seq<u8>| spendings.filter(|s: Spending| s.0 == account);
            let limit = |account: Seq<u8>|
                if limits.specific_gas_limit.contains_key(lower_hex(account)) {
                    limits.specific_gas_limit[lower_hex(account)]
                } else {
                    limits.common_gas_limit
                };
            block_quota_fits(spendings, block_gas_limit, check_quota, limits) <==> sum(spendings)
                <= block_gas_limit && (check_quota ==> forall|account: Seq<u8>| #[trigger]
                sum(of(account)) <= limit(account))
        }),
{
    let sum = |l: Seq<Spending>| l.fold_left(0int, |sum: int, s: Spending| sum + s.1);
    let of = |account: Seq<u8>| spendings.filter(|s: Spending| s.0 == account);
    let limit = |account: Seq<u8>|
        if limits.specific_gas_limit.contains_key(lower_hex(account)) {
            limits.specific_gas_limit[lower_hex(account)]
        } else {
            limits.common_gas_limit
        };
    sums_and_totals(spendings, Seq::empty(), |s: Spending| s.0 == Seq::<u8>::empty());
    assert forall|account: Seq<u8>| #[trigger] sum(of(account)) == total_of(spendings, account) by {
        sums_and_totals(spendings, account, |s: Spending| s.0 == account);
    }
    assert forall|account: Seq<u8>| limit(account) == #[trigger] limits.limit_of(account) by {}
    if forall|account: Seq<u8>| #[trigger] sum(of(account)) <= limit(account) {
        assert forall|account: Seq<u8>| #[trigger] total_of(spendings, account)
            <= limits.limit_of(account) by {
            assert(sum(of(account)) <= limit(account));
        }
    }
}

proof fn sums_and_totals(
    spendings: Seq<Spending>,
    account: Seq<u8>,
    is_of: spec_fn(Spending) -> bool,
)
    requires
        forall|s: Spending| #[trigger] is_of(s) <==> s.0 == account,
    ensures
        spendings.fold_left(0int, |sum: int, s: Spending| sum + s.1) == total(spendings),
        spendings.filter(is_of).fold_left(0int, |sum: int, s: Spending| sum + s.1) == total_of(
            spendings,
            account,
        ),
    decreases spendings.len(),
{
    reveal(Seq::filter);
    if spendings.len() > 0 {
        let rest = spendings.drop_last();
        sums_and_totals(rest, account, is_of);
        if is_of(spendings.last()) {
            let mine = rest.filter(is_of).push(spendings.last());
            assert(spendings.filter(is_of) == mine);
            assert(mine.drop_last() =~= rest.filter(is_of));
        }
    }
}

/// One transaction stays within its quota exactly if it asks for no more than the block has and, where
/// accounts are limited, than its sender has; that is, exactly if a block of it alone would.
pub proof fn tx_quota_is_that_of_a_block_of_one(
    quota: u64,
    sender: Seq<u8>,
    block_gas_limit: u64,
    check_quota: bool,
    limits: AccountGasLimitView,
)
    ensures
        tx_quota_fits(quota, sender, block_gas_limit, check_quota, limits) <==> quota
            <= block_gas_limit && (check_quota ==> quota
            <= if limits.specific_gas_limit.contains_key(lower_hex(sender)) {
            limits.specific_gas_limit[lower_hex(sender)]
        } else {
            limits.common_gas_limit
        }),
        tx_quota_fits(quota, sender, block_gas_limit, check_quota, limits) <==> block_quota_fits(
            seq![(sender, quota)],
            block_gas_limit,
            check_quota,
            limits,
        ),
{
    let one = seq![(sender, quota)];
    assert(one.drop_last() =~= Seq::empty());
    assert(one.last() == (sender, quota));
    reveal_with_fuel(total, 2);
    reveal_with_fuel(total_of, 2);
    assert forall|account: Seq<u8>| #[trigger] total_of(one, account) == if account == sender {
        quota as int
    } else {
        0
    } by {}
    assert(total_of(one, sender) == quota);
}

/// Of several limits that a list gives one account, the last one counts; an account that the list does
/// not name has none.
pub proof fn last_limit_of_an_account_counts(limits: Seq<(String, u64)>, name: Seq<char>, i: int)
    ensures
        limits_map(limits).contains_key(name) <==> exists|j: int|
            0 <= j < limits.len() && (#[trigger] limits[j]).0@ == name,
        0 <= i < limits.len() && limits[i].0@ == name && (forall|j: int|
            i < j < limits.len() ==> (#[trigger] limits[j]).0@ != name) ==> limits_map(limits)[name]
            == limits[i].1,
    decreases limits.len(),
{
    if limits.len() > 0 {
        let rest = limits.drop_last();
        let n = limits.len() - 1;
        last_limit_of_an_account_counts(rest, name, i);
        assert(limits[n] == limits.last());
        if limits_map(rest).contains_key(name) {
            let j = choose|j: int| 0 <= j < rest.len() && (#[trigger] rest[j]).0@ == name;
            assert(limits[j].0@ == name);
        }
        assert forall|j: int| 0 <= j < rest.len() implies rest[j] == #[trigger] limits[j] by {}
        if 0 <= i < n && limits[i].0@ == name && (forall|j: int|
            i < j < limits.len() ==> (#[trigger] limits[j]).0@ != name) {
            assert(limits[n].0@ != name);
            assert forall|j: int| i < j < rest.len() implies (#[trigger] rest[j]).0@ != name by {
                assert(limits[j].0@ != name);
            }
        }
    }
}

} // verus!
