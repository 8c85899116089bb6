//! A ledger of balances in several assets.

use vstd::prelude::*;
use crate::types::{AccountId, AssetId, Balance, Error};

verus! {

/// What one account holds of one asset.
#[derive(Clone, Copy, Debug, PartialEq, Eq)]
pub struct Account {
    pub who: AccountId,
    pub asset: AssetId,
    pub amount: Balance,
}

/// Balances by account and asset. An account that is not in the map holds
/// nothing.
pub type Balances = Map<(AccountId, AssetId), Balance>;

/// What `who` holds of `asset`.
pub open spec fn balance_of(m: Balances, who: AccountId, asset: AssetId) -> Balance {
    if m.dom().contains((who, asset)) {
        m[(who, asset)]
    } else {
        0
    }
}

/// The balances after `amount` of `asset` was added to what `who` holds.
pub open spec fn credited(m: Balances, who: AccountId, asset: AssetId, amount: Balance) -> Result<
    Balances,
    Error,
> {
    if balance_of(m, who, asset) + amount > u128::MAX {
        Err(Error::Overflow)
    } else {
        Ok(m.insert((who, asset), (balance_of(m, who, asset) + amount) as u128))
    }
}

/// The balances after `amount` of `asset` was taken from what `who` holds.
pub open spec fn debited(m: Balances, who: AccountId, asset: AssetId, amount: Balance) -> Result<
    Balances,
    Error,
> {
    if balance_of(m, who, asset) < amount {
        Err(Error::InsufficientBalance)
    } else {
        Ok(m.insert((who, asset), (balance_of(m, who, asset) - amount) as u128))
    }
}

/// The balances after `amount` of `asset` went from `from` to `to`.
pub open spec fn transferred(
    m: Balances,
    asset: AssetId,
    from: AccountId,
    to: AccountId,
    amount: Balance,
) -> Result<Balances, Error> {
    match debited(m, from, asset, amount) {
        Err(e) => Err(e),
        Ok(m1) => credited(m1, to, asset, amount),
    }
}

/// The map that a list of accounts stands for. Where an account occurs
/// twice, the first occurrence counts.
pub open spec fn accounts_map(s: Seq<Account>) -> Balances
    decreases s.len(),
{
    if s.len() == 0 {
        Map::empty()
    } else {
        accounts_map(s.drop_first()).insert((s.first().who, s.first().asset), s.first().amount)
    }
}

/// The first `n` accounts are not the one of `who` in `asset`.
pub open spec fn absent_before(s: Seq<Account>, who: AccountId, asset: AssetId, n: int) -> bool {
    forall|j: int| 0 <= j < n ==> !((#[trigger] s[j]).who == who && s[j].asset == asset)
}

proof fn lemma_first_match(s: Seq<Account>, i: int, amount: Balance)
    requires
        0 <= i < s.len(),
        absent_before(s, s[i].who, s[i].asset, i),
    ensures
        accounts_map(s).dom().contains((s[i].who, s[i].asset)),
        accounts_map(s)[(s[i].who, s[i].asset)] == s[i].amount,
        accounts_map(s.update(i, Account { amount, ..s[i] })) == accounts_map(s).insert(
            (s[i].who, s[i].asset),
            amount,
        ),
    decreases s.len(),
{
    let k: (AccountId, AssetId) = (s[i].who, s[i].asset);
    let t: Seq<Account> = s.update(i, Account { amount, ..s[i] });
    if i == 0 {
        assert(t.drop_first() == s.drop_first());
        assert(accounts_map(t) =~= accounts_map(s).insert(k, amount));
    } else {
        let rest: Seq<Account> = s.drop_first();
        assert(rest[i - 1] == s[i]);
        assert forall|j: int| 0 <= j < i - 1 implies !((#[trigger] rest[j]).who == k.0
            && rest[j].asset == k.1) by {
            assert(rest[j] == s[j + 1]);
        }
        lemma_first_match(rest, i - 1, amount);
        assert(t.drop_first() == rest.update(i - 1, Account { amount, ..rest[i - 1] }));
        assert(t.first() == s.first());
        assert(!(s[0].who == k.0 && s[0].asset == k.1));
        assert(accounts_map(t) =~= accounts_map(s).insert(k, amount));
    }
}

proof fn lemma_no_match(s: Seq<Account>, a: Account)
    requires
        absent_before(s, a.who, a.asset, s.len() as int),
    ensures
        !accounts_map(s).dom().contains((a.who, a.asset)),
        accounts_map(s.push(a)) == accounts_map(s).insert((a.who, a.asset), a.amount),
    decreases s.len(),
{
    let k: (AccountId, AssetId) = (a.who, a.asset);
    if s.len() == 0 {
        assert(s.push(a).drop_first() == Seq::<Account>::empty());
        assert(s.push(a).first() == a);
        assert(accounts_map(s.push(a).drop_first()) == Map::<(AccountId, AssetId), Balance>::empty());
        assert(accounts_map(s) == Map::<(AccountId, AssetId), Balance>::empty());
        assert(accounts_map(s.push(a)) =~= accounts_map(s).insert(k, a.amount));
    } else {
        let rest: Seq<Account> = s.drop_first();
        assert forall|j: int| 0 <= j < rest.len() implies !((#[trigger] rest[j]).who == k.0
            && rest[j].asset == k.1) by {
            assert(rest[j] == s[j + 1]);
        }
        lemma_no_match(rest, a);
        assert(s.push(a).drop_first() == rest.push(a));
        assert(!(s[0].who == k.0 && s[0].asset == k.1));
        assert(accounts_map(s.push(a)) =~= accounts_map(s).insert(k, a.amount));
    }
}

/// The balances of all accounts, in all assets.
#[derive(Clone, Debug, PartialEq, Eq)]
pub struct Ledger {
    pub accounts: Vec<Account>,
}

impl View for Ledger {
    type V = Balances;

    open spec fn view(&self) -> Balances {
        accounts_map(self.accounts@)
    }
}

impl Ledger {
    /// A ledger in which nobody holds anything.
    pub fn new() -> (r: Ledger)
        ensures
            r@ == Map::<(AccountId, AssetId), Balance>::empty(),
    {
        Ledger { accounts: Vec::new() }
    }

    /// The place of the account of `who` in `asset`, if it has one.
    fn find(&self, who: AccountId, asset: AssetId) -> (r: Option<usize>)
        ensures
            match r {
                Some(i) => i < self.accounts.len() && self.accounts[i as int].who == who
                    && self.accounts[i as int].asset == asset && absent_before(
                    self.accounts@,
                    who,
                    asset,
                    i as int,
                ),
                None => absent_before(self.accounts@, who, asset, self.accounts.len() as int),
            },
    {
        let mut i: usize = 0;
        while i < self.accounts.len()
            invariant
                i <= self.accounts.len(),
                absent_before(self.accounts@, who, asset, i as int),
            decreases self.accounts.len() - i,
        {
            if self.accounts[i].who == who && self.accounts[i].asset == asset {
                return Some(i);
            }
            i += 1;
        }
        None
    }

    /// What `who` holds of `asset`.
    pub fn free_balance(&self, asset: AssetId, who: AccountId) -> (r: Balance)
        ensures
            r == balance_of(self@, who, asset),
    {
        match self.find(who, asset) {
            Some(i) => {
                proof {
                    lemma_first_match(self.accounts@, i as int, 0);
                }
                self.accounts[i].amount
            },
            None => {
                proof {
                    lemma_no_match(self.accounts@, Account { who, asset, amount: 0 });
                }
                0
            },
        }
    }

    /// Makes `amount` what `who` holds of `asset`.
    pub fn set_balance(&mut self, who: AccountId, asset: AssetId, amount: Balance)
        ensures
            final(self)@ == old(self)@.insert((who, asset), amount),
    {
        match self.find(who, asset) {
            Some(i) => {
                proof {
                    lemma_first_match(self.accounts@, i as int, amount);
                }
                self.accounts.set(i, Account { who, asset, amount });
            },
            None => {
                proof {
                    lemma_no_match(self.accounts@, Account { who, asset, amount });
                }
                self.accounts.push(Account { who, asset, amount });
            },
        }
    }

    /// Adds `amount` of `asset` to what `who` holds.
    pub fn credit(&mut self, who: AccountId, asset: AssetId, amount: Balance) -> (r: Result<
        (),
        Error,
    >)
        ensures
            match r {
                Ok(_) => credited(old(self)@, who, asset, amount) == Ok::<Balances, Error>(
                    final(self)@,
                ),
                Err(e) => credited(old(self)@, who, asset, amount) == Err::<Balances, Error>(e)
                    && final(self)@ == old(self)@,
            },
    {
        let held: u128 = self.free_balance(asset, who);
        match held.checked_add(amount) {
            Some(sum) => {
                self.set_balance(who, asset, sum);
                Ok(())
            },
            None => Err(Error::Overflow),
        }
    }

    /// Takes `amount` of `asset` from what `who` holds.
    pub fn debit(&mut self, who: AccountId, asset: AssetId, amount: Balance) -> (r: Result<
        (),
        Error,
    >)
        ensures
            match r {
                Ok(_) => debited(old(self)@, who, asset, amount) == Ok::<Balances, Error>(
                    final(self)@,
                ),
                Err(e) => debited(old(self)@, who, asset, amount) == Err::<Balances, Error>(e)
                    && final(self)@ == old(self)@,
            },
    {
        let held: u128 = self.free_balance(asset, who);
        if held < amount {
            return Err(Error::InsufficientBalance);
        }
        self.set_balance(who, asset, held - amount);
        Ok(())
    }

    /// Moves `amount` of `asset` from `from` to `to`.
    pub fn transfer(&mut self, asset: AssetId, from: AccountId, to: AccountId, amount: Balance) -> (r:
        Result<(), Error>)
        ensures
            match r {
                Ok(_) => transferred(old(self)@, asset, from, to, amount) == Ok::<Balances, Error>(
                    final(self)@,
                ),
                Err(e) => transferred(old(self)@, asset, from, to, amount) == Err::<
                    Balances,
                    Error,
                >(e) && final(self)@ == old(self)@,
            },
    {
        let held: u128 = self.free_balance(asset, from);
        if held < amount {
            return Err(Error::InsufficientBalance);
        }
        let target: u128 = if from == to {
            held - amount
        } else {
            self.free_balance(asset, to)
        };
        let sum: u128 = match target.checked_add(amount) {
            Some(v) => v,
            None => {
                return Err(Error::Overflow);
            },
        };
        self.set_balance(from, asset, held - amount);
        self.set_balance(to, asset, sum);
        Ok(())
    }
}

} // verus!
