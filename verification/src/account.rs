//! Accounts: a token balance, a key/value store and a role tag.

use vstd::prelude::*;

verus! {

/// Role tag of an account. Only `User` accounts are created by the core;
/// the other roles exist for extension.
#[derive(Clone, Copy, Debug)]
pub enum AccountType {
    /// A common user account.
    User,
    /// An account that does not represent an individual.
    Contract,
    /// A role for validators, with running tallies.
    Validator {
        correctly_validated_blocks: u128,
        incorrectly_validated_blocks: u128,
        you_get_the_idea: bool,
    },
}

/// Mathematical image of an account.
#[verifier::ext_equal]
pub ghost struct AccountV {
    pub store: Map<Seq<char>, Seq<char>>,
    pub acc_type: AccountType,
    pub tokens: u128,
}

/// The images of a sequence of string pairs.
pub open spec fn str_pairs_view(s: Seq<(String, String)>) -> Seq<(Seq<char>, Seq<char>)> {
    s.map_values(|p: (String, String)| (p.0@, p.1@))
}

/// The value bound to `k` by the latest binding in `s`, if any.
pub open spec fn str_pairs_find(s: Seq<(Seq<char>, Seq<char>)>, k: Seq<char>) -> Option<Seq<char>>
    decreases s.len(),
{
    if s.len() == 0 {
        None
    } else if s.last().0 == k {
        Some(s.last().1)
    } else {
        str_pairs_find(s.drop_last(), k)
    }
}

/// The mapping that a binding sequence represents: latest binding wins.
pub open spec fn str_map_of(s: Seq<(Seq<char>, Seq<char>)>) -> Map<Seq<char>, Seq<char>> {
    Map::new(
        |k: Seq<char>| str_pairs_find(s, k) is Some,
        |k: Seq<char>| match str_pairs_find(s, k) {
            Some(v) => v,
            None => Seq::empty(),
        },
    )
}

/// An account's arbitrary key/value store, a mapping from string to
/// string. The core never writes to it; it exists for extension.
#[derive(Debug)]
pub struct StringMap {
    entries: Vec<(String, String)>,
}

impl View for StringMap {
    type V = Map<Seq<char>, Seq<char>>;

    closed spec fn view(&self) -> Map<Seq<char>, Seq<char>> {
        str_map_of(str_pairs_view(self.entries@))
    }
}

impl StringMap {
    /// An empty store.
    pub fn new() -> (r: StringMap)
        ensures
            r@ == Map::<Seq<char>, Seq<char>>::empty(),
    {
        let r = StringMap { entries: Vec::new() };
        proof {
            assert(r@ =~= Map::<Seq<char>, Seq<char>>::empty());
        }
        r
    }

    /// A deep copy representing the same mapping.
    pub fn duplicate(&self) -> (r: StringMap)
        ensures
            r@ == self@,
    {
        let mut entries: Vec<(String, String)> = Vec::new();
        let mut i: usize = 0;
        while i < self.entries.len()
            invariant
                i <= self.entries.len(),
                str_pairs_view(entries@) == str_pairs_view(self.entries@.subrange(0, i as int)),
            decreases self.entries.len() - i,
        {
            let k = self.entries[i].0.clone();
            let v = self.entries[i].1.clone();
            proof {
                assert(k@ == self.entries@[i as int].0@);
                assert(v@ == self.entries@[i as int].1@);
            }
            entries.push((k, v));
            proof {
                let lhs = str_pairs_view(entries@);
                let rhs = str_pairs_view(self.entries@.subrange(0, (i + 1) as int));
                let prev = str_pairs_view(self.entries@.subrange(0, i as int));
                assert(lhs.len() == entries@.len());
                assert(prev.len() == i as int);
                assert(entries@.len() == i + 1);
                assert(rhs.len() == i + 1);
                assert(lhs.len() == rhs.len());
                assert forall|j: int| 0 <= j < lhs.len() implies lhs[j] == rhs[j] by {
                    if j < i as int {
                        assert(lhs[j] == prev[j]);
                        assert(rhs[j] == prev[j]);
                    } else {
                        assert(lhs[j] == (k@, v@));
                        assert(rhs[j] == (self.entries@[i as int].0@, self.entries@[i as int].1@));
                    }
                }
                assert(lhs =~= rhs);
            }
            i += 1;
        }
        proof {
            assert(self.entries@.subrange(0, self.entries@.len() as int) =~= self.entries@);
        }
        let r = StringMap { entries };
        r
    }
}

/// A single principal's state: token balance, key/value store, role tag.
#[derive(Debug)]
pub struct Account {
    store: StringMap,
    acc_type: AccountType,
    tokens: u128,
}

impl View for Account {
    type V = AccountV;

    closed spec fn view(&self) -> AccountV {
        AccountV { store: self.store@, acc_type: self.acc_type, tokens: self.tokens }
    }
}

/// The image of a freshly created account of the given role: no tokens,
/// empty store.
pub open spec fn fresh_account(account_type: AccountType) -> AccountV {
    AccountV { store: Map::empty(), acc_type: account_type, tokens: 0 }
}

impl Account {
    /// A fresh account of the given role.
    pub fn new(account_type: AccountType) -> (r: Account)
        ensures
            r@ == fresh_account(account_type),
    {
        let r = Account { tokens: 0, acc_type: account_type, store: StringMap::new() };
        proof {
            assert(r@ =~= fresh_account(account_type));
        }
        r
    }

    /// The account's token balance.
    pub fn tokens(&self) -> (t: u128)
        ensures
            t == self@.tokens,
    {
        self.tokens
    }

    /// A deep copy representing the same account, with the balance
    /// replaced.
    pub(crate) fn with_tokens(&self, tokens: u128) -> (r: Account)
        ensures
            r@ == (AccountV { tokens, ..self@ }),
    {
        let r = Account { tokens, acc_type: self.acc_type, store: self.store.duplicate() };
        proof {
            assert(r@ =~= (AccountV { tokens, ..self@ }));
        }
        r
    }

    /// A deep copy representing the same account.
    pub(crate) fn duplicate(&self) -> (r: Account)
        ensures
            r@ == self@,
    {
        let r = Account {
            tokens: self.tokens,
            acc_type: self.acc_type,
            store: self.store.duplicate(),
        };
        proof {
            assert(r@ =~= self@);
        }
        r
    }
}

} // verus!
