//! The membership ledger: one account of shares per member identity.
//!
//! The ledger keeps its accounts in the order in which they were first stored. No
//! identity occurs twice, and an account is never removed: a member who holds no
//! shares is still a member.

use crate::identity::same_principal;
use crate::tokens::{nat_value, tokens_add_assign, tokens_from_u64, tokens_sub_assign};
use candid::Principal;
use icrc_ledger_types::icrc1::transfer::NumTokens;
use vstd::prelude::*;

verus! {

/// A member's account.
#[derive(Debug, PartialEq, Eq)]
pub struct DaoAccount {
    pub id: Principal,
    pub shares: NumTokens,
}

/// What a [`DaoAccount`] holds, with the shares as a number.
pub struct AccountView {
    pub id: Principal,
    pub shares: nat,
}

impl View for DaoAccount {
    type V = AccountView;

    open spec fn view(&self) -> AccountView {
        AccountView { id: self.id, shares: nat_value(self.shares) }
    }
}

impl Clone for DaoAccount {
    fn clone(&self) -> (r: Self)
        ensures
            r@ == self@,
    {
        DaoAccount { id: self.id, shares: self.shares.clone() }
    }
}

impl DaoAccount {
    /// Adds `amount` to the account's shares.
    pub fn add_shares(&mut self, amount: &NumTokens)
        ensures
            final(self)@ == (AccountView {
                id: old(self)@.id,
                shares: old(self)@.shares + nat_value(*amount),
            }),
    {
        tokens_add_assign(&mut self.shares, amount.clone());
    }

    /// Takes `amount` off the account's shares, which must hold at least that much.
    pub fn sub_shares(&mut self, amount: &NumTokens)
        requires
            nat_value(*amount) <= old(self)@.shares,
        ensures
            final(self)@ == (AccountView {
                id: old(self)@.id,
                shares: (old(self)@.shares - nat_value(*amount)) as nat,
            }),
    {
        tokens_sub_assign(&mut self.shares, amount.clone());
    }
}

/// Some account in `accounts` belongs to `id`.
pub open spec fn is_member(accounts: Seq<AccountView>, id: Principal) -> bool {
    exists|i: int| 0 <= i < accounts.len() && (#[trigger] accounts[i]).id == id
}

/// The position of the account of `id`, where `id` is a member.
pub open spec fn slot_of(accounts: Seq<AccountView>, id: Principal) -> int {
    choose|i: int| 0 <= i < accounts.len() && (#[trigger] accounts[i]).id == id
}

/// The shares that `id` holds, where `id` is a member.
pub open spec fn shares_of(accounts: Seq<AccountView>, id: Principal) -> nat {
    accounts[slot_of(accounts, id)].shares
}

/// No identity has two accounts.
pub open spec fn distinct_ids(accounts: Seq<AccountView>) -> bool {
    forall|i: int, j: int|
        0 <= i < j < accounts.len() ==> (#[trigger] accounts[i]).id != (#[trigger] accounts[j]).id
}

/// The sum of the shares of all accounts.
pub open spec fn sum_shares(accounts: Seq<AccountView>) -> nat
    decreases accounts.len(),
{
    if accounts.len() == 0 {
        0
    } else {
        sum_shares(accounts.drop_last()) + accounts.last().shares
    }
}

/// The accounts after `account` is stored: it replaces the account of the same
/// identity, or comes last if there was none.
pub open spec fn stored(accounts: Seq<AccountView>, account: AccountView) -> Seq<AccountView> {
    if is_member(accounts, account.id) {
        accounts.update(slot_of(accounts, account.id), account)
    } else {
        accounts.push(account)
    }
}

/// In a ledger without duplicates, the account at position `i` is the account of its
/// identity.
pub proof fn lemma_slot_of(accounts: Seq<AccountView>, i: int)
    requires
        distinct_ids(accounts),
        0 <= i < accounts.len(),
    ensures
        is_member(accounts, accounts[i].id),
        slot_of(accounts, accounts[i].id) == i,
{
    let id = accounts[i].id;
    let j = slot_of(accounts, id);
    assert(0 <= j < accounts.len() && accounts[j].id == id);
    if j < i {
        assert(accounts[j].id != accounts[i].id);
    } else if i < j {
        assert(accounts[i].id != accounts[j].id);
    }
}

/// Storing an account keeps the ledger free of duplicates.
pub proof fn lemma_stored_distinct(accounts: Seq<AccountView>, account: AccountView)
    requires
        distinct_ids(accounts),
    ensures
        distinct_ids(stored(accounts, account)),
        is_member(stored(accounts, account), account.id),
        shares_of(stored(accounts, account), account.id) == account.shares,
        forall|other: Principal|
            other != account.id ==> (is_member(stored(accounts, account), other) <==> is_member(
                accounts,
                other,
            )),
        forall|other: Principal|
            other != account.id && is_member(accounts, other) ==> shares_of(
                stored(accounts, account),
                other,
            ) == shares_of(accounts, other),
{
    let after = stored(accounts, account);
    let k = if is_member(accounts, account.id) {
        slot_of(accounts, account.id)
    } else {
        accounts.len() as int
    };
    assert(0 <= k < after.len() && after[k] == account);
    assert(forall|i: int| 0 <= i < after.len() && i != k ==> after[i] == accounts[i]);
    assert(forall|i: int| 0 <= i < accounts.len() && i != k ==> (#[trigger] accounts[i]).id != account.id) by {
        if is_member(accounts, account.id) {
            assert forall|i: int| 0 <= i < accounts.len() && i != k implies (#[trigger] accounts[i]).id
                != account.id by {
                if accounts[i].id == account.id {
                    lemma_slot_of(accounts, i);
                }
            }
        }
    }
    assert(distinct_ids(after)) by {
        assert forall|i: int, j: int| 0 <= i < j < after.len() implies (#[trigger] after[i]).id != (
        #[trigger] after[j]).id by {
            if i != k && j != k {
                assert(accounts[i].id != accounts[j].id);
            } else if i == k {
                assert(accounts[j].id != account.id);
            } else {
                assert(accounts[i].id != account.id);
            }
        }
    }
    lemma_slot_of(after, k);
    assert forall|other: Principal| other != account.id implies (is_member(after, other) <==> is_member(
        accounts,
        other,
    )) by {
        if is_member(after, other) {
            let i = slot_of(after, other);
            assert(after[i].id == other);
            assert(i != k);
            assert(accounts[i].id == other);
        }
        if is_member(accounts, other) {
            let i = slot_of(accounts, other);
            assert(accounts[i].id == other);
            assert(i != k);
            assert(after[i].id == other);
        }
    }
    assert forall|other: Principal| other != account.id && is_member(accounts, other) implies shares_of(
        after,
        other,
    ) == shares_of(accounts, other) by {
        let i = slot_of(accounts, other);
        assert(accounts[i].id == other);
        assert(i != k);
        assert(after[i] == accounts[i]);
        lemma_slot_of(after, i);
    }
}

/// Appending an account adds its shares to the sum.
pub proof fn lemma_sum_push(accounts: Seq<AccountView>, account: AccountView)
    ensures
        sum_shares(accounts.push(account)) == sum_shares(accounts) + account.shares,
{
    assert(accounts.push(account).drop_last() =~= accounts);
}

/// Replacing an account changes the sum by the difference of the shares.
pub proof fn lemma_sum_update(accounts: Seq<AccountView>, i: int, account: AccountView)
    requires
        0 <= i < accounts.len(),
    ensures
        sum_shares(accounts.update(i, account)) + accounts[i].shares == sum_shares(accounts)
            + account.shares,
    decreases accounts.len(),
{
    let after = accounts.update(i, account);
    if i == accounts.len() - 1 {
        assert(after.drop_last() =~= accounts.drop_last());
    } else {
        lemma_sum_update(accounts.drop_last(), i, account);
        assert(after.drop_last() =~= accounts.drop_last().update(i, account));
    }
}

/// The accounts after `amount` shares are taken off the account of `id`, a member who
/// holds at least that much.
pub open spec fn debited(accounts: Seq<AccountView>, id: Principal, amount: nat) -> Seq<AccountView> {
    accounts.update(
        slot_of(accounts, id),
        AccountView { id, shares: (shares_of(accounts, id) - amount) as nat },
    )
}

/// The accounts after `amount` shares are added to the account of `id`, which is
/// created if `id` had none.
pub open spec fn credited(accounts: Seq<AccountView>, id: Principal, amount: nat) -> Seq<AccountView> {
    stored(
        accounts,
        AccountView {
            id,
            shares: if is_member(accounts, id) {
                shares_of(accounts, id) + amount
            } else {
                amount
            },
        },
    )
}

/// Storing an account changes the sum by the difference to what its identity held.
pub proof fn lemma_sum_stored(accounts: Seq<AccountView>, account: AccountView)
    requires
        distinct_ids(accounts),
    ensures
        is_member(accounts, account.id) ==> sum_shares(stored(accounts, account)) + shares_of(
            accounts,
            account.id,
        ) == sum_shares(accounts) + account.shares,
        !is_member(accounts, account.id) ==> sum_shares(stored(accounts, account)) == sum_shares(
            accounts,
        ) + account.shares,
{
    if is_member(accounts, account.id) {
        lemma_sum_update(accounts, slot_of(accounts, account.id), account);
    } else {
        lemma_sum_push(accounts, account);
    }
}

/// Taking shares off a member's account keeps the ledger valid and lowers the sum by
/// the amount.
pub proof fn lemma_debited(accounts: Seq<AccountView>, id: Principal, amount: nat)
    requires
        distinct_ids(accounts),
        is_member(accounts, id),
        amount <= shares_of(accounts, id),
    ensures
        debited(accounts, id, amount) == stored(
            accounts,
            AccountView { id, shares: (shares_of(accounts, id) - amount) as nat },
        ),
        distinct_ids(debited(accounts, id, amount)),
        sum_shares(debited(accounts, id, amount)) + amount == sum_shares(accounts),
        amount <= sum_shares(accounts),
{
    let account = AccountView { id, shares: (shares_of(accounts, id) - amount) as nat };
    lemma_stored_distinct(accounts, account);
    lemma_sum_stored(accounts, account);
    lemma_sum_bounds(accounts, slot_of(accounts, id));
}

/// Adding shares to an account keeps the ledger valid and raises the sum by the
/// amount.
pub proof fn lemma_credited(accounts: Seq<AccountView>, id: Principal, amount: nat)
    requires
        distinct_ids(accounts),
    ensures
        distinct_ids(credited(accounts, id, amount)),
        sum_shares(credited(accounts, id, amount)) == sum_shares(accounts) + amount,
{
    let account = AccountView {
        id,
        shares: if is_member(accounts, id) {
            shares_of(accounts, id) + amount
        } else {
            amount
        },
    };
    lemma_stored_distinct(accounts, account);
    lemma_sum_stored(accounts, account);
}

/// No account holds more than the sum of all shares.
pub proof fn lemma_sum_bounds(accounts: Seq<AccountView>, i: int)
    requires
        0 <= i < accounts.len(),
    ensures
        accounts[i].shares <= sum_shares(accounts),
    decreases accounts.len(),
{
    if i < accounts.len() - 1 {
        lemma_sum_bounds(accounts.drop_last(), i);
    }
}

/// The accounts of all members.
pub struct MembershipLedger {
    accounts: Vec<DaoAccount>,
}

impl View for MembershipLedger {
    type V = Seq<AccountView>;

    closed spec fn view(&self) -> Seq<AccountView> {
        self.accounts@.map_values(|a: DaoAccount| a@)
    }
}

impl MembershipLedger {
    /// The ledger's invariant: no identity has two accounts.
    pub open spec fn wf(&self) -> bool {
        distinct_ids(self@)
    }

    /// A ledger without accounts.
    pub fn new() -> (r: Self)
        ensures
            r.wf(),
            r@ == Seq::<AccountView>::empty(),
    {
        MembershipLedger { accounts: Vec::new() }
    }

    /// The number of accounts.
    pub fn len(&self) -> (n: usize)
        ensures
            n == self@.len(),
    {
        self.accounts.len()
    }

    /// The position of the account of `id`, if there is one.
    fn find(&self, id: &Principal) -> (r: Option<usize>)
        requires
            self.wf(),
        ensures
            r is Some <==> is_member(self@, *id),
            r matches Some(i) ==> i == slot_of(self@, *id) && i < self@.len(),
    {
        let mut i: usize = 0;
        while i < self.accounts.len()
            invariant
                self.wf(),
                i <= self.accounts.len(),
                forall|j: int| 0 <= j < i ==> (#[trigger] self@[j]).id != *id,
            decreases self.accounts.len() - i,
        {
            if same_principal(&self.accounts[i].id, id) {
                proof {
                    assert(self@[i as int].id == *id);
                    lemma_slot_of(self@, i as int);
                }
                return Some(i);
            }
            i += 1;
        }
        None
    }

    /// The account at position `i`, as a copy.
    pub fn account_at(&self, i: usize) -> (r: DaoAccount)
        requires
            i < self@.len(),
        ensures
            r@ == self@[i as int],
    {
        self.accounts[i].clone()
    }

    /// The sum of the shares of all accounts.
    pub fn total_shares(&self) -> (r: NumTokens)
        ensures
            nat_value(r) == sum_shares(self@),
    {
        let mut sum = tokens_from_u64(0);
        let mut i: usize = 0;
        while i < self.accounts.len()
            invariant
                i <= self.accounts.len(),
                nat_value(sum) == sum_shares(self@.subrange(0, i as int)),
            decreases self.accounts.len() - i,
        {
            proof {
                assert(self@.subrange(0, i + 1).drop_last() =~= self@.subrange(0, i as int));
            }
            tokens_add_assign(&mut sum, self.accounts[i].shares.clone());
            i += 1;
        }
        assert(self@.subrange(0, i as int) =~= self@);
        sum
    }

    /// Whether `id` has an account.
    pub fn contains(&self, id: &Principal) -> (r: bool)
        requires
            self.wf(),
        ensures
            r == is_member(self@, *id),
    {
        self.find(id).is_some()
    }

    /// The account of `id`: a copy of it, or `None` if `id` is not a member.
    pub fn get(&self, id: &Principal) -> (r: Option<DaoAccount>)
        requires
            self.wf(),
        ensures
            r is Some <==> is_member(self@, *id),
            r matches Some(account) ==> account@ == self@[slot_of(self@, *id)],
    {
        match self.find(id) {
            Some(i) => Some(self.accounts[i].clone()),
            None => None,
        }
    }

    /// Stores `account`: it replaces the account of the same identity, or is added if
    /// that identity had none. Other accounts are left as they are.
    pub fn upsert(&mut self, account: DaoAccount)
        requires
            old(self).wf(),
        ensures
            final(self).wf(),
            final(self)@ == stored(old(self)@, account@),
    {
        proof {
            lemma_stored_distinct(self@, account@);
        }
        match self.find(&account.id) {
            Some(i) => {
                self.accounts.set(i, account);
                assert(self@ =~= stored(old(self)@, account@));
            },
            None => {
                self.accounts.push(account);
                assert(self@ =~= stored(old(self)@, account@));
            },
        }
    }
}

} // verus!
