use vstd::prelude::*;
use crate::decimal::{decimal, push_decimal};

verus! {

/// An `int` brought into the range of `i32` the way two's-complement
/// arithmetic does it: the value congruent to `x` modulo 2^32.
pub open spec fn wrap_i32(x: int) -> int {
    let m = x % 0x1_0000_0000;
    if m > i32::MAX as int {
        m - 0x1_0000_0000
    } else {
        m
    }
}

/// Wrapping part-way through a sum does not change the wrapped total.
proof fn lemma_wrap_absorbs(x: int, y: int)
    ensures
        wrap_i32(wrap_i32(x) + y) == wrap_i32(x + y),
{
    let m = 0x1_0000_0000int;
    let r = x % m;
    vstd::arithmetic::div_mod::lemma_add_mod_noop(x, y, m);
    vstd::arithmetic::div_mod::lemma_add_mod_noop(r, y, m);
    vstd::arithmetic::div_mod::lemma_mod_twice(x, m);
    vstd::arithmetic::div_mod::lemma_mod_sub_multiples_vanish(r + y, m);
    assert((wrap_i32(x) + y) % m == (x + y) % m);
}

/// What `i32::wrapping_add` computes, in terms of `wrap_i32`.
proof fn lemma_wrapping_add(x: i32, y: i32)
    ensures
        (x as int + y as int) < i32::MIN ==> wrap_i32(x + y) == x + y + 0x1_0000_0000,
        (x as int + y as int) > i32::MAX ==> wrap_i32(x + y) == x + y - 0x1_0000_0000,
        i32::MIN <= (x as int + y as int) <= i32::MAX ==> wrap_i32(x + y) == x + y,
{
}

/// A bank account: an identifier, the holder's name and a balance.
///
/// Deposits and withdrawals wrap around on overflow, as two's-complement
/// `i32` arithmetic does.
#[derive(Debug)]
pub struct Account {
    id: u32,
    holder: String,
    balance: i32,
}

/// The text `"{holder} has a balance {balance}"`.
pub open spec fn account_summary(holder: Seq<char>, balance: i32) -> Seq<char> {
    holder + " has a balance "@ + decimal(balance as int)
}

impl Account {
    /// The identifier, for contracts.
    pub closed spec fn spec_id(&self) -> u32 {
        self.id
    }

    /// The holder's name, for contracts.
    pub closed spec fn spec_holder(&self) -> &String {
        &self.holder
    }

    /// The balance, for contracts.
    pub closed spec fn spec_balance(&self) -> i32 {
        self.balance
    }

    /// The identifier given at construction.
    #[verifier::when_used_as_spec(spec_id)]
    pub fn id(&self) -> (r: u32)
        ensures
            r == self.id(),
    {
        self.id
    }

    /// The holder's name.
    #[verifier::when_used_as_spec(spec_holder)]
    pub fn holder(&self) -> (r: &String)
        ensures
            r == self.holder(),
    {
        &self.holder
    }

    /// The current balance.
    #[verifier::when_used_as_spec(spec_balance)]
    pub fn balance(&self) -> (r: i32)
        ensures
            r == self.balance(),
    {
        self.balance
    }

    /// A new account with a zero balance.
    pub fn new(id: u32, holder: String) -> (r: Account)
        ensures
            r.id() == id,
            r.holder()@ == holder@,
            r.balance() == 0,
    {
        Account { id, holder, balance: 0 }
    }

    /// The text `"{holder} has a balance {balance}"`.
    pub fn summary(&self) -> (r: String)
        ensures
            r@ == account_summary(self.holder()@, self.balance()),
    {
        let mut s = String::new();
        s.append(self.holder.as_str());
        s.append(" has a balance ");
        proof {
            reveal_strlit(" has a balance ");
        }
        push_decimal(&mut s, self.balance);
        assert(s@ =~= account_summary(self.holder@, self.balance));
        s
    }

    /// Adds `amount` to the balance, wrapping on overflow; returns the new balance.
    pub fn deposit(&mut self, amount: i32) -> (r: i32)
        ensures
            final(self).balance() == wrap_i32(old(self).balance() + amount),
            final(self).id() == old(self).id(),
            final(self).holder() == old(self).holder(),
            r == final(self).balance(),
    {
        proof {
            lemma_wrapping_add(self.balance, amount);
        }
        self.balance = self.balance.wrapping_add(amount);
        self.balance
    }

    /// Subtracts `amount` from the balance, wrapping on overflow; returns the
    /// new balance. The balance may become negative.
    pub fn withdraw(&mut self, amount: i32) -> (r: i32)
        ensures
            final(self).balance() == wrap_i32(old(self).balance() - amount),
            final(self).id() == old(self).id(),
            final(self).holder() == old(self).holder(),
            r == final(self).balance(),
    {
        self.balance = self.balance.wrapping_sub(amount);
        self.balance
    }
}

/// One deposit (`true`) or withdrawal (`false`) of an amount.
pub type Movement = (bool, i32);

/// The balance after one movement, as `deposit` and `withdraw` compute it.
pub open spec fn after_movement(balance: int, m: Movement) -> int {
    if m.0 {
        wrap_i32(balance + m.1)
    } else {
        wrap_i32(balance - m.1)
    }
}

/// The balance after the movements, applied in order.
pub open spec fn after_movements(balance: int, ms: Seq<Movement>) -> int
    decreases ms.len(),
{
    if ms.len() == 0 {
        balance
    } else {
        after_movement(after_movements(balance, ms.drop_last()), ms.last())
    }
}

/// Deposits added, withdrawals subtracted, with no wrapping.
pub open spec fn net(ms: Seq<Movement>) -> int
    decreases ms.len(),
{
    if ms.len() == 0 {
        0
    } else {
        net(ms.drop_last()) + if ms.last().0 { ms.last().1 as int } else { -ms.last().1 }
    }
}

/// Starting from a zero balance, any mix of deposits and withdrawals ends at
/// the sum of the deposits minus the sum of the withdrawals, wrapped into `i32`.
pub proof fn lemma_balance_is_net(ms: Seq<Movement>)
    ensures
        after_movements(0, ms) == wrap_i32(net(ms)),
    decreases ms.len(),
{
    if ms.len() > 0 {
        lemma_balance_is_net(ms.drop_last());
        let a = ms.last().1 as int;
        if ms.last().0 {
            lemma_wrap_absorbs(net(ms.drop_last()), a);
        } else {
            lemma_wrap_absorbs(net(ms.drop_last()), -a);
        }
    }
}

/// The sum of the balances, with no wrapping.
pub open spec fn sum_balances(accounts: Seq<Account>) -> int
    decreases accounts.len(),
{
    if accounts.len() == 0 {
        0
    } else {
        sum_balances(accounts.drop_last()) + accounts.last().balance()
    }
}

/// The summary line of each account, in order.
pub open spec fn summaries(accounts: Seq<Account>) -> Seq<Seq<char>> {
    accounts.map_values(|a: Account| account_summary(a.holder()@, a.balance()))
}

/// The accounts of a bank after `add_account` of each of `added`, in order.
pub open spec fn after_adds(start: Seq<Account>, added: Seq<Account>) -> Seq<Account>
    decreases added.len(),
{
    if added.len() == 0 {
        start
    } else {
        after_adds(start, added.drop_last()).push(added.last())
    }
}

/// A bank: accounts in the order they were added.
#[derive(Debug)]
pub struct Bank {
    accounts: Vec<Account>,
}

impl View for Bank {
    type V = Seq<Account>;

    closed spec fn view(&self) -> Seq<Account> {
        self.accounts@
    }
}

/// After a run of `add_account` calls on a new bank, the summaries hold one
/// line per call, the `i`-th for the `i`-th account added.
pub proof fn lemma_summaries_follow_additions(added: Seq<Account>)
    ensures
        after_adds(Seq::empty(), added) == added,
        summaries(after_adds(Seq::empty(), added)).len() == added.len(),
        forall|i: int|
            0 <= i < added.len() ==> #[trigger] summaries(after_adds(Seq::empty(), added))[i]
                == account_summary(added[i].holder()@, added[i].balance()),
    decreases added.len(),
{
    if added.len() > 0 {
        lemma_summaries_follow_additions(added.drop_last());
        assert(added.drop_last().push(added.last()) =~= added);
    }
}

impl Bank {
    /// A bank with no accounts.
    pub fn new() -> (r: Bank)
        ensures
            r@ == Seq::<Account>::empty(),
    {
        Bank { accounts: Vec::new() }
    }

    /// Appends `account`.
    pub fn add_account(&mut self, account: Account)
        ensures
            final(self)@ == old(self)@.push(account),
    {
        self.accounts.push(account);
    }

    /// The sum of all balances, added left to right with wrapping.
    pub fn total_balance(&self) -> (r: i32)
        ensures
            r == wrap_i32(sum_balances(self@)),
    {
        let mut total: i32 = 0;
        let mut i: usize = 0;
        assert(self@.subrange(0, 0) =~= Seq::<Account>::empty());
        while i < self.accounts.len()
            invariant
                i <= self@.len(),
                self@ == self.accounts@,
                total == wrap_i32(sum_balances(self@.subrange(0, i as int))),
            decreases self@.len() - i,
        {
            let b = self.accounts[i].balance;
            proof {
                let before = self@.subrange(0, i as int);
                assert(self@.subrange(0, i as int + 1).drop_last() =~= before);
                lemma_wrap_absorbs(sum_balances(before), b as int);
                lemma_wrapping_add(total, b);
            }
            total = total.wrapping_add(b);
            i = i + 1;
        }
        assert(self@.subrange(0, i as int) =~= self@);
        total
    }

    /// One summary line per account, in order.
    pub fn summary(&self) -> (r: Vec<String>)
        ensures
            r@.len() == self@.len(),
            forall|i: int| 0 <= i < r@.len() ==> #[trigger] r@[i]@ == summaries(self@)[i],
    {
        let mut out: Vec<String> = Vec::new();
        let mut i: usize = 0;
        while i < self.accounts.len()
            invariant
                i <= self@.len(),
                self@ == self.accounts@,
                out@.len() == i,
                forall|j: int| 0 <= j < i ==> #[trigger] out@[j]@ == summaries(self@)[j],
            decreases self@.len() - i,
        {
            out.push(self.accounts[i].summary());
            i = i + 1;
        }
        out
    }
}

} // verus!
