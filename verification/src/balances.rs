use vstd::prelude::*;
use crate::address::Address;

verus! {

/// The mathematical value of an [`Account`].
pub struct AccountView {
    pub holder: Seq<char>,
    pub amount: i128,
}

/// The balance of one holder.
#[derive(Debug)]
pub struct Account {
    pub holder: Address,
    pub amount: i128,
}

impl View for Account {
    type V = AccountView;

    open spec fn view(&self) -> AccountView {
        AccountView { holder: self.holder@, amount: self.amount }
    }
}

impl Clone for Account {
    fn clone(&self) -> (r: Account)
        ensures
            r == *self,
    {
        Account { holder: self.holder.clone(), amount: self.amount }
    }
}

/// The values of a sequence of accounts, in the same order.
pub open spec fn account_views(accounts: Seq<Account>) -> Seq<AccountView> {
    accounts.map_values(|a: Account| a@)
}

/// Whether `who` has an account.
pub open spec fn holds(accounts: Seq<AccountView>, who: Seq<char>) -> bool {
    exists|i: int| 0 <= i < accounts.len() && #[trigger] accounts[i].holder == who
}

/// The place of the account of `who`, where there is one.
pub open spec fn slot(accounts: Seq<AccountView>, who: Seq<char>) -> int {
    choose|i: int| 0 <= i < accounts.len() && #[trigger] accounts[i].holder == who
}

/// The balance of `who`: the amount of their account, zero without one.
pub open spec fn balance_of(accounts: Seq<AccountView>, who: Seq<char>) -> int {
    if holds(accounts, who) {
        accounts[slot(accounts, who)].amount as int
    } else {
        0
    }
}

/// No holder has two accounts.
pub open spec fn distinct_holders(accounts: Seq<AccountView>) -> bool {
    forall|i: int, j: int|
        0 <= i < accounts.len() && 0 <= j < accounts.len() && i != j
            ==> #[trigger] accounts[i].holder != #[trigger] accounts[j].holder
}

/// No account is in debt.
pub open spec fn no_debt(accounts: Seq<AccountView>) -> bool {
    forall|i: int| 0 <= i < accounts.len() ==> #[trigger] accounts[i].amount >= 0
}

/// The sum of all balances.
pub open spec fn sum_of_balances(accounts: Seq<AccountView>) -> int
    decreases accounts.len(),
{
    if accounts.len() == 0 {
        0
    } else {
        sum_of_balances(accounts.drop_last()) + accounts.last().amount
    }
}

/// The accounts after `delta` was added to the balance of `who`: their account is
/// changed in place, or opened at the end where they had none.
pub open spec fn adjusted(accounts: Seq<AccountView>, who: Seq<char>, delta: int) -> Seq<AccountView> {
    if holds(accounts, who) {
        let i = slot(accounts, who);
        accounts.update(i, AccountView { holder: who, amount: (accounts[i].amount + delta) as i128 })
    } else {
        accounts.push(AccountView { holder: who, amount: delta as i128 })
    }
}

/// With distinct holders, the account found at `i` is the account of its holder.
pub proof fn lemma_slot_is(accounts: Seq<AccountView>, i: int)
    requires
        distinct_holders(accounts),
        0 <= i < accounts.len(),
    ensures
        holds(accounts, accounts[i].holder),
        slot(accounts, accounts[i].holder) == i,
        balance_of(accounts, accounts[i].holder) == accounts[i].amount,
{
    let who = accounts[i].holder;
    assert(accounts[i].holder == who);
    let s = slot(accounts, who);
    assert(accounts[s].holder == who);
}

/// Changing one amount changes the sum by the difference.
pub proof fn lemma_sum_update(accounts: Seq<AccountView>, i: int, entry: AccountView)
    requires
        0 <= i < accounts.len(),
    ensures
        sum_of_balances(accounts.update(i, entry)) == sum_of_balances(accounts) - accounts[i].amount
            + entry.amount,
    decreases accounts.len(),
{
    let after = accounts.update(i, entry);
    if i == accounts.len() - 1 {
        assert(after.drop_last() =~= accounts.drop_last());
    } else {
        assert(after.drop_last() =~= accounts.drop_last().update(i, entry));
        lemma_sum_update(accounts.drop_last(), i, entry);
    }
}

/// Opening an account adds its amount to the sum.
pub proof fn lemma_sum_push(accounts: Seq<AccountView>, entry: AccountView)
    ensures
        sum_of_balances(accounts.push(entry)) == sum_of_balances(accounts) + entry.amount,
{
    assert(accounts.push(entry).drop_last() =~= accounts);
}

/// Without debt, no balance exceeds the sum, and neither do two of them together.
pub proof fn lemma_sum_bounds(accounts: Seq<AccountView>)
    requires
        no_debt(accounts),
    ensures
        sum_of_balances(accounts) >= 0,
        forall|i: int| 0 <= i < accounts.len() ==> #[trigger] accounts[i].amount <= sum_of_balances(accounts),
        forall|i: int, j: int|
            0 <= i < accounts.len() && 0 <= j < accounts.len() && i != j ==> #[trigger] accounts[i].amount
                + #[trigger] accounts[j].amount <= sum_of_balances(accounts),
    decreases accounts.len(),
{
    if accounts.len() > 0 {
        let rest = accounts.drop_last();
        lemma_sum_bounds(rest);
        assert forall|i: int| 0 <= i < accounts.len() implies #[trigger] accounts[i].amount
            <= sum_of_balances(accounts) by {
            if i < rest.len() {
                assert(rest[i].amount <= sum_of_balances(rest));
            }
        }
        assert forall|i: int, j: int|
            0 <= i < accounts.len() && 0 <= j < accounts.len() && i != j implies #[trigger] accounts[i].amount
                + #[trigger] accounts[j].amount <= sum_of_balances(accounts) by {
            if i < rest.len() && j < rest.len() {
                assert(rest[i].amount + rest[j].amount <= sum_of_balances(rest));
            } else if i < rest.len() {
                assert(rest[i].amount <= sum_of_balances(rest));
            } else {
                assert(rest[j].amount <= sum_of_balances(rest));
            }
        }
    }
}

/// What adjusting a balance does: the balance of `who` moves by `delta`, every other
/// balance stays, the sum moves by `delta`, and the holders stay distinct.
pub proof fn lemma_adjusted(accounts: Seq<AccountView>, who: Seq<char>, delta: int)
    requires
        distinct_holders(accounts),
        i128::MIN <= balance_of(accounts, who) + delta <= i128::MAX,
    ensures
        distinct_holders(adjusted(accounts, who, delta)),
        balance_of(adjusted(accounts, who, delta), who) == balance_of(accounts, who) + delta,
        forall|other: Seq<char>|
            other != who ==> balance_of(adjusted(accounts, who, delta), other) == balance_of(
                accounts,
                other,
            ),
        sum_of_balances(adjusted(accounts, who, delta)) == sum_of_balances(accounts) + delta,
        no_debt(accounts) && balance_of(accounts, who) + delta >= 0 ==> no_debt(
            adjusted(accounts, who, delta),
        ),
{
    let after = adjusted(accounts, who, delta);
    if holds(accounts, who) {
        let i = slot(accounts, who);
        lemma_sum_update(accounts, i, after[i]);
        assert(after[i].holder == who);
        lemma_slot_is(after, i);
        assert forall|other: Seq<char>| other != who implies balance_of(after, other) == balance_of(
            accounts,
            other,
        ) by {
            if holds(accounts, other) {
                let k = slot(accounts, other);
                assert(after[k].holder == other);
                lemma_slot_is(after, k);
            } else if holds(after, other) {
                let k = slot(after, other);
                assert(accounts[k].holder == other);
            }
        }
    } else {
        let n = accounts.len() as int;
        lemma_sum_push(accounts, after[n]);
        assert(after[n].holder == who);
        assert forall|i: int, j: int|
            0 <= i < after.len() && 0 <= j < after.len() && i != j implies #[trigger] after[i].holder
            != #[trigger] after[j].holder by {
            if i < n && j < n {
                assert(accounts[i].holder != accounts[j].holder);
            } else if i < n {
                assert(accounts[i].holder != who);
            } else {
                assert(accounts[j].holder != who);
            }
        }
        lemma_slot_is(after, n);
        assert forall|other: Seq<char>| other != who implies balance_of(after, other) == balance_of(
            accounts,
            other,
        ) by {
            if holds(accounts, other) {
                let k = slot(accounts, other);
                assert(after[k].holder == other);
                lemma_slot_is(after, k);
                lemma_slot_is(accounts, k);
            } else if holds(after, other) {
                let k = slot(after, other);
                assert(accounts[k].holder == other);
            }
        }
    }
}

/// The place of the account of `who`, if they have one.
pub fn find_account(accounts: &Vec<Account>, who: &Address) -> (r: Option<usize>)
    ensures
        match r {
            Some(i) => i < accounts@.len() && accounts@[i as int]@.holder == who@,
            None => !holds(account_views(accounts@), who@),
        },
{
    let mut i: usize = 0;
    while i < accounts.len()
        invariant
            i <= accounts@.len(),
            forall|k: int| 0 <= k < i ==> #[trigger] accounts@[k]@.holder != who@,
        decreases accounts@.len() - i,
    {
        if accounts[i].holder.same(who) {
            return Some(i);
        }
        i += 1;
    }
    proof {
        let views = account_views(accounts@);
        if holds(views, who@) {
            let k = slot(views, who@);
            assert(accounts@[k]@.holder == who@);
        }
    }
    None
}

/// The balance of `who`.
pub fn balance_in(accounts: &Vec<Account>, who: &Address) -> (r: i128)
    requires
        distinct_holders(account_views(accounts@)),
    ensures
        r == balance_of(account_views(accounts@), who@),
{
    match find_account(accounts, who) {
        Some(i) => {
            proof {
                lemma_slot_is(account_views(accounts@), i as int);
            }
            accounts[i].amount
        },
        None => 0,
    }
}

/// Sets the balance of `who` to `amount`, opening an account where they had none.
pub fn set_balance(accounts: &mut Vec<Account>, who: &Address, amount: i128)
    requires
        distinct_holders(account_views(old(accounts)@)),
    ensures
        account_views(final(accounts)@) == adjusted(
            account_views(old(accounts)@),
            who@,
            amount - balance_of(account_views(old(accounts)@), who@),
        ),
{
    let ghost before = account_views(accounts@);
    match find_account(accounts, who) {
        Some(i) => {
            proof {
                lemma_slot_is(before, i as int);
            }
            accounts.set(i, Account { holder: who.clone(), amount });
            assert(account_views(accounts@) =~= adjusted(before, who@, amount - balance_of(before, who@)));
        },
        None => {
            accounts.push(Account { holder: who.clone(), amount });
            assert(account_views(accounts@) =~= adjusted(before, who@, amount - balance_of(before, who@)));
        },
    }
}

/// Whether the accounts have distinct holders and no debt.
pub fn accounts_in_order(accounts: &Vec<Account>) -> (r: bool)
    ensures
        r == (distinct_holders(account_views(accounts@)) && no_debt(account_views(accounts@))),
{
    let ghost views = account_views(accounts@);
    let mut i: usize = 0;
    while i < accounts.len()
        invariant
            i <= accounts@.len(),
            views == account_views(accounts@),
            forall|a: int| 0 <= a < i ==> #[trigger] views[a].amount >= 0,
            forall|a: int, b: int| 0 <= a < b < i ==> #[trigger] views[a].holder != #[trigger] views[b].holder,
        decreases accounts@.len() - i,
    {
        if accounts[i].amount < 0 {
            assert(views[i as int].amount < 0);
            return false;
        }
        let mut j: usize = 0;
        while j < i
            invariant
                j <= i < accounts@.len(),
                views == account_views(accounts@),
                forall|a: int| 0 <= a < j ==> #[trigger] views[a].holder != views[i as int].holder,
            decreases i - j,
        {
            if accounts[j].holder.same(&accounts[i].holder) {
                assert(views[j as int].holder == views[i as int].holder);
                return false;
            }
            j += 1;
        }
        i += 1;
    }
    assert forall|a: int, b: int| 0 <= a < views.len() && 0 <= b < views.len() && a != b implies #[trigger] views[a].holder
        != #[trigger] views[b].holder by {
        if a < b {
            assert(views[a].holder != views[b].holder);
        } else {
            assert(views[b].holder != views[a].holder);
        }
    }
    true
}

} // verus!
