//! The stored accounts: a set of named accounts, kept in name order, and
//! the name of the default one.

use vstd::prelude::*;
use vstd::string::StrSliceExecFns;
use crate::error::opt_view;

verus! {

/// Strict lexicographic order of strings, character by character (the order
/// of `String`'s `Ord`).
pub open spec fn text_lt(a: Seq<char>, b: Seq<char>) -> bool
    decreases a.len(),
{
    if a.len() == 0 {
        b.len() > 0
    } else if b.len() == 0 {
        false
    } else if a[0] != b[0] {
        (a[0] as int) < (b[0] as int)
    } else {
        text_lt(a.drop_first(), b.drop_first())
    }
}

pub proof fn lemma_text_lt_irreflexive(a: Seq<char>)
    ensures
        !text_lt(a, a),
    decreases a.len(),
{
    if a.len() > 0 {
        lemma_text_lt_irreflexive(a.drop_first());
    }
}

pub proof fn lemma_text_lt_transitive(a: Seq<char>, b: Seq<char>, c: Seq<char>)
    requires
        text_lt(a, b),
        text_lt(b, c),
    ensures
        text_lt(a, c),
    decreases a.len(),
{
    if a.len() > 0 && b.len() > 0 && c.len() > 0 {
        if a[0] == b[0] && b[0] == c[0] {
            lemma_text_lt_transitive(a.drop_first(), b.drop_first(), c.drop_first());
        }
    }
}

pub proof fn lemma_text_lt_total(a: Seq<char>, b: Seq<char>)
    requires
        a != b,
    ensures
        text_lt(a, b) || text_lt(b, a),
    decreases a.len(),
{
    if a.len() > 0 && b.len() > 0 {
        if a[0] == b[0] {
            if a.drop_first() == b.drop_first() {
                assert(a =~= seq![a[0]] + a.drop_first());
                assert(b =~= seq![b[0]] + b.drop_first());
            } else {
                lemma_text_lt_total(a.drop_first(), b.drop_first());
            }
        } else {
            assert((a[0] as int) != (b[0] as int));
        }
    } else if a.len() == 0 && b.len() == 0 {
        assert(a =~= b);
    }
}

/// Whether `a` comes before `b` in name order.
pub fn text_less(a: &str, b: &str) -> (r: bool)
    ensures
        r == text_lt(a@, b@),
{
    let la = a.unicode_len();
    let lb = b.unicode_len();
    let mut i: usize = 0;
    assert(a@.skip(0) =~= a@);
    assert(b@.skip(0) =~= b@);
    while i < la && i < lb
        invariant
            la == a@.len(),
            lb == b@.len(),
            i <= la,
            i <= lb,
            text_lt(a@, b@) == text_lt(a@.skip(i as int), b@.skip(i as int)),
        decreases la - i,
    {
        let ca = a.get_char(i);
        let cb = b.get_char(i);
        if ca != cb {
            return (ca as u32) < (cb as u32);
        }
        assert(a@.skip(i as int).drop_first() =~= a@.skip(i + 1));
        assert(b@.skip(i as int).drop_first() =~= b@.skip(i + 1));
        i = i + 1;
    }
    i == la && i < lb
}

/// A stored account.
pub struct AccountConfig {
    pub username: String,
    pub customer_number: Option<String>,
    pub endpoint: Option<String>,
    pub added_at: String,
}

/// The stored accounts and the default one.
pub struct Config {
    pub default_account: Option<String>,
    pub accounts: Vec<(String, AccountConfig)>,
}

/// The names of stored accounts, in stored order.
pub open spec fn names(accounts: Seq<(String, AccountConfig)>) -> Seq<Seq<char>> {
    accounts.map_values(|e: (String, AccountConfig)| e.0@)
}

/// Names in strictly increasing order, hence each at most once.
pub open spec fn strictly_sorted(ns: Seq<Seq<char>>) -> bool {
    forall|i: int, j: int| 0 <= i < j < ns.len() ==> text_lt(#[trigger] ns[i], #[trigger] ns[j])
}

/// Whether an account of this name is stored.
pub open spec fn stores(accounts: Seq<(String, AccountConfig)>, k: Seq<char>) -> bool {
    exists|i: int| 0 <= i < accounts.len() && (#[trigger] accounts[i]).0@ == k
}

/// A position where an account of this name is stored.
pub open spec fn entry_index(accounts: Seq<(String, AccountConfig)>, k: Seq<char>) -> int {
    choose|i: int| 0 <= i < accounts.len() && (#[trigger] accounts[i]).0@ == k
}

/// The account stored under a name, if any.
pub open spec fn entry(accounts: Seq<(String, AccountConfig)>, k: Seq<char>) -> Option<AccountConfig> {
    if stores(accounts, k) {
        Some(accounts[entry_index(accounts, k)].1)
    } else {
        None
    }
}

pub proof fn lemma_entry_at(accounts: Seq<(String, AccountConfig)>, i: int)
    requires
        strictly_sorted(names(accounts)),
        0 <= i < accounts.len(),
    ensures
        entry(accounts, accounts[i].0@) == Some(accounts[i].1),
{
    let k = accounts[i].0@;
    assert(stores(accounts, k));
    let c = entry_index(accounts, k);
    if c != i {
        let ns = names(accounts);
        assert(ns[c] == k && ns[i] == k);
        if c < i {
            assert(text_lt(ns[c], ns[i]));
        } else {
            assert(text_lt(ns[i], ns[c]));
        }
        lemma_text_lt_irreflexive(k);
    }
}

impl Config {
    /// No accounts and no default.
    pub fn new() -> (c: Config)
        ensures
            c.well_formed(),
            c.default_account is None,
            c.accounts@.len() == 0,
    {
        Config { default_account: None, accounts: Vec::new() }
    }

    /// The accounts are kept in strictly increasing name order.
    pub open spec fn well_formed(&self) -> bool {
        strictly_sorted(names(self.accounts@))
    }

    /// The name of the account used when none is named: the default one,
    /// else the account named `default` when one is stored.
    pub open spec fn effective_default_spec(&self) -> Option<Seq<char>> {
        match self.default_account {
            Some(d) => Some(d@),
            None => if self.account("default"@) is Some {
                Some("default"@)
            } else {
                None
            },
        }
    }

    /// The account stored under a name, if any.
    pub open spec fn account(&self, name: Seq<char>) -> Option<AccountConfig> {
        entry(self.accounts@, name)
    }

    /// The position of the account stored under `name`.
    pub fn find(&self, name: &str) -> (r: Option<usize>)
        requires
            self.well_formed(),
        ensures
            r matches Some(i) ==> i < self.accounts@.len() && self.accounts@[i as int].0@ == name@
                && self.account(name@) == Some(self.accounts@[i as int].1),
            r is None ==> self.account(name@) is None,
    {
        let key = String::from_str(name);
        let mut i: usize = 0;
        while i < self.accounts.len()
            invariant
                i <= self.accounts.len(),
                key@ == name@,
                self.well_formed(),
                forall|j: int| 0 <= j < i ==> (#[trigger] self.accounts@[j]).0@ != name@,
            decreases self.accounts.len() - i,
        {
            if self.accounts[i].0 == key {
                proof {
                    lemma_entry_at(self.accounts@, i as int);
                }
                return Some(i);
            }
            i = i + 1;
        }
        None
    }

    /// The name of the account used when none is named (see
    /// [`Config::effective_default_spec`]).
    pub fn effective_default(&self) -> (r: Option<String>)
        requires
            self.well_formed(),
        ensures
            opt_view(r) == self.effective_default_spec(),
    {
        match &self.default_account {
            Some(d) => Some(d.clone()),
            None => match self.find("default") {
                Some(_) => Some(String::from_str("default")),
                None => None,
            },
        }
    }

    /// Stores `account` under `name`, replacing the account stored there.
    pub fn put(&mut self, name: String, account: AccountConfig)
        requires
            old(self).well_formed(),
        ensures
            final(self).well_formed(),
            final(self).default_account == old(self).default_account,
            forall|k: Seq<char>| #[trigger] final(self).account(k) == if k == name@ {
                Some(account)
            } else {
                old(self).account(k)
            },
            final(self).accounts@.len() == if old(self).account(name@) is Some {
                old(self).accounts@.len()
            } else {
                old(self).accounts@.len() + 1
            },
    {
        let ghost old_accounts = self.accounts@;
        let ghost n = name@;
        match self.find(name.as_str()) {
            Some(i) => {
                self.accounts.set(i, (name, account));
                proof {
                    let acc = self.accounts@;
                    assert(names(acc) =~= names(old_accounts));
                    assert forall|k: Seq<char>| #[trigger] entry(acc, k) == if k == n {
                        Some(account)
                    } else {
                        entry(old_accounts, k)
                    } by {
                        if k == n {
                            lemma_entry_at(acc, i as int);
                        } else if stores(old_accounts, k) {
                            let j = choose|j: int| 0 <= j < old_accounts.len() && (#[trigger] old_accounts[j]).0@ == k;
                            lemma_entry_at(old_accounts, j);
                            assert(acc[j] == old_accounts[j]);
                            lemma_entry_at(acc, j);
                        } else {
                            if stores(acc, k) {
                                let j = choose|j: int| 0 <= j < acc.len() && (#[trigger] acc[j]).0@ == k;
                                assert(old_accounts[j].0@ == k);
                            }
                        }
                    }
                }
            },
            None => {
                let mut p: usize = 0;
                while p < self.accounts.len() && !text_less(name.as_str(), self.accounts[p].0.as_str())
                    invariant
                        p <= self.accounts.len(),
                        self.accounts@ == old_accounts,
                        n == name@,
                        forall|j: int| 0 <= j < p ==> !text_lt(n, (#[trigger] old_accounts[j]).0@),
                    decreases self.accounts.len() - p,
                {
                    p = p + 1;
                }
                self.accounts.insert(p, (name, account));
                proof {
                    let acc = self.accounts@;
                    let ons = names(old_accounts);
                    let ns = names(acc);
                    assert(acc =~= old_accounts.insert(p as int, (acc[p as int].0, account)));
                    assert forall|j: int| 0 <= j < p implies text_lt(#[trigger] ons[j], n) by {
                        assert(ons[j] != n);
                        lemma_text_lt_total(ons[j], n);
                    }
                    assert forall|j: int| p <= j < ons.len() implies text_lt(n, #[trigger] ons[j]) by {
                        if j > p {
                            assert(text_lt(ons[p as int], ons[j]));
                            lemma_text_lt_transitive(n, ons[p as int], ons[j]);
                        }
                    }
                    assert forall|i: int, j: int| 0 <= i < j < ns.len() implies text_lt(#[trigger] ns[i], #[trigger] ns[j]) by {
                        assert(ns[p as int] == n);
                        if i < p && j == p {
                            assert(ns[i] == ons[i]);
                        } else if i < p && j > p {
                            assert(ns[j] == ons[j - 1]);
                            assert(ns[i] == ons[i]);
                            lemma_text_lt_transitive(ns[i], n, ns[j]);
                        } else if i == p {
                            assert(ns[j] == ons[j - 1]);
                        } else if j < p {
                            assert(ns[i] == ons[i] && ns[j] == ons[j]);
                        } else {
                            assert(ns[i] == ons[i - 1] && ns[j] == ons[j - 1]);
                        }
                    }
                    assert forall|k: Seq<char>| #[trigger] entry(acc, k) == if k == n {
                        Some(account)
                    } else {
                        entry(old_accounts, k)
                    } by {
                        if k == n {
                            lemma_entry_at(acc, p as int);
                        } else if stores(old_accounts, k) {
                            let j = choose|j: int| 0 <= j < old_accounts.len() && (#[trigger] old_accounts[j]).0@ == k;
                            lemma_entry_at(old_accounts, j);
                            if j < p {
                                assert(acc[j] == old_accounts[j]);
                                lemma_entry_at(acc, j);
                            } else {
                                assert(acc[j + 1] == old_accounts[j]);
                                lemma_entry_at(acc, j + 1);
                            }
                        } else {
                            if stores(acc, k) {
                                let j = choose|j: int| 0 <= j < acc.len() && (#[trigger] acc[j]).0@ == k;
                                if j < p {
                                    assert(old_accounts[j].0@ == k);
                                } else if j > p {
                                    assert(old_accounts[j - 1].0@ == k);
                                }
                            }
                        }
                    }
                }
            },
        }
    }

    /// Removes the account stored under `name`; tells whether there was one.
    pub fn remove(&mut self, name: &str) -> (found: bool)
        requires
            old(self).well_formed(),
        ensures
            final(self).well_formed(),
            found == (old(self).account(name@) is Some),
            final(self).default_account == old(self).default_account,
            forall|k: Seq<char>| #[trigger] final(self).account(k) == if k == name@ {
                None
            } else {
                old(self).account(k)
            },
            final(self).accounts@.len() == if found {
                old(self).accounts@.len() - 1
            } else {
                old(self).accounts@.len() as int
            },
    {
        let ghost old_accounts = self.accounts@;
        let ghost n = name@;
        match self.find(name) {
            Some(i) => {
                let _removed = self.accounts.remove(i);
                proof {
                    let acc = self.accounts@;
                    let ons = names(old_accounts);
                    let ns = names(acc);
                    assert(acc =~= old_accounts.remove(i as int));
                    assert forall|a: int, b: int| 0 <= a < b < ns.len() implies text_lt(#[trigger] ns[a], #[trigger] ns[b]) by {
                        let a2 = if a < i { a } else { a + 1 };
                        let b2 = if b < i { b } else { b + 1 };
                        assert(ns[a] == ons[a2] && ns[b] == ons[b2]);
                    }
                    assert forall|k: Seq<char>| #[trigger] entry(acc, k) == if k == n {
                        None
                    } else {
                        entry(old_accounts, k)
                    } by {
                        if stores(acc, k) {
                            let j = choose|j: int| 0 <= j < acc.len() && (#[trigger] acc[j]).0@ == k;
                            let j2 = if j < i { j } else { j + 1 };
                            assert(acc[j] == old_accounts[j2]);
                            lemma_entry_at(acc, j);
                            lemma_entry_at(old_accounts, j2);
                            if k == n {
                                assert(ons[j2] == ons[i as int]);
                                if j2 < i {
                                    assert(text_lt(ons[j2], ons[i as int]));
                                } else {
                                    assert(text_lt(ons[i as int], ons[j2]));
                                }
                                lemma_text_lt_irreflexive(n);
                            }
                        } else if k != n && stores(old_accounts, k) {
                            let j = choose|j: int| 0 <= j < old_accounts.len() && (#[trigger] old_accounts[j]).0@ == k;
                            if j < i {
                                assert(acc[j] == old_accounts[j]);
                            } else {
                                assert(j != i);
                                assert(acc[j - 1] == old_accounts[j]);
                            }
                        }
                    }
                }
                true
            },
            None => {
                proof {
                    assert forall|k: Seq<char>| #[trigger] entry(self.accounts@, k) == if k == n {
                        None
                    } else {
                        entry(old_accounts, k)
                    } by {
                    }
                }
                false
            },
        }
    }
}

} // verus!
