//! The world state: a mapping from account id to account, and the
//! capability interface over it that transaction execution runs against.

use vstd::prelude::*;
use crate::account::Account;
use crate::account::AccountType;
use crate::account::AccountV;
use crate::account::fresh_account;
use crate::errors::ExecError;

verus! {

/// The images of a sequence of account bindings.
pub open spec fn acct_pairs_view(s: Seq<(String, Account)>) -> Seq<(Seq<char>, AccountV)> {
    s.map_values(|p: (String, Account)| (p.0@, p.1@))
}

/// The account bound to `k` by the latest binding in `s`, if any.
pub open spec fn acct_find(s: Seq<(Seq<char>, AccountV)>, k: Seq<char>) -> Option<AccountV>
    decreases s.len(),
{
    if s.len() == 0 {
        None
    } else if s.last().0 == k {
        Some(s.last().1)
    } else {
        acct_find(s.drop_last(), k)
    }
}

/// The mapping that a binding sequence represents: latest binding wins.
pub open spec fn acct_map_of(s: Seq<(Seq<char>, AccountV)>) -> Map<Seq<char>, AccountV> {
    Map::new(
        |k: Seq<char>| acct_find(s, k) is Some,
        |k: Seq<char>| match acct_find(s, k) {
            Some(a) => a,
            None => fresh_account(AccountType::User),
        },
    )
}

/// Appending a binding is inserting into the represented mapping.
proof fn lemma_push_is_insert(s: Seq<(Seq<char>, AccountV)>, k: Seq<char>, a: AccountV)
    ensures
        acct_map_of(s.push((k, a))) == acct_map_of(s).insert(k, a),
{
    let t = s.push((k, a));
    assert(t.drop_last() =~= s);
    assert(t.last() == (k, a));
    assert(acct_map_of(t) =~= acct_map_of(s).insert(k, a));
}

/// Rewriting the last binding that carries a key is inserting into the
/// represented mapping: lookups of that key see the new account, lookups
/// of any other key are untouched.
proof fn lemma_find_after_update(s: Seq<(Seq<char>, AccountV)>, i: int, a: AccountV, key: Seq<char>)
    requires
        0 <= i < s.len(),
        forall|j: int| i < j < s.len() ==> s[j].0 != s[i].0,
    ensures
        acct_find(s.update(i, (s[i].0, a)), key) == (if key == s[i].0 {
            Some(a)
        } else {
            acct_find(s, key)
        }),
    decreases s.len(),
{
    let t = s.update(i, (s[i].0, a));
    if i == s.len() - 1 {
        assert(t.drop_last() =~= s.drop_last());
        assert(t.last() == (s[i].0, a));
    } else {
        assert(t.last() == s.last());
        assert(t.drop_last() =~= s.drop_last().update(i, (s[i].0, a)));
        assert(s.drop_last()[i] == s[i]);
        lemma_find_after_update(s.drop_last(), i, a, key);
    }
}

/// A key is bound exactly when some binding carries it.
proof fn lemma_find_some_iff(s: Seq<(Seq<char>, AccountV)>, k: Seq<char>)
    ensures
        acct_find(s, k) is Some <==> (exists|j: int| 0 <= j < s.len() && s[j].0 == k),
    decreases s.len(),
{
    if s.len() > 0 {
        lemma_find_some_iff(s.drop_last(), k);
        if s.last().0 == k {
            assert(s[s.len() - 1].0 == k);
        } else {
            if exists|j: int| 0 <= j < s.len() && s[j].0 == k {
                let j = choose|j: int| 0 <= j < s.len() && s[j].0 == k;
                assert(j < s.len() - 1);
                assert(s.drop_last()[j].0 == k);
            }
        }
    }
}

/// The capability set any state container must offer so that transaction
/// execution can run against it: enumerate ids, read an account, overwrite
/// a balance, create an account. Accounts are never deleted.
pub trait WorldState {
    /// The mapping of account id to account that the container represents.
    spec fn world(&self) -> Map<Seq<char>, AccountV>;

    /// All registered account ids.
    fn get_user_ids(&self) -> (ids: Vec<String>)
        ensures
            forall|k: Seq<char>|
                self.world().dom().contains(k) <==> ids@.map_values(|s: String| s@).contains(k),
    ;

    /// Read-only account lookup by id.
    fn get_account_by_id(&self, id: &String) -> (r: Option<&Account>)
        ensures
            match r {
                Some(a) => self.world().dom().contains(id@) && a@ == self.world()[id@],
                None => !self.world().dom().contains(id@),
            },
    ;

    /// Overwrites the token balance of an existing account; reports whether
    /// the account existed. Nothing else about the world changes.
    fn set_account_tokens(&mut self, id: &String, tokens: u128) -> (ok: bool)
        ensures
            ok == old(self).world().dom().contains(id@),
            ok ==> final(self).world() == old(self).world().insert(
                id@,
                (AccountV { tokens, ..old(self).world()[id@] }),
            ),
            !ok ==> final(self).world() == old(self).world(),
    ;

    /// Adds a fresh account of the given role under `id`; fails with
    /// `AccountExists` when the id is already bound.
    fn create_account(&mut self, id: String, account_type: AccountType) -> (r: Result<
        (),
        ExecError,
    >)
        ensures
            match r {
                Ok(()) => !old(self).world().dom().contains(id@) && final(self).world() == old(
                    self,
                ).world().insert(id@, fresh_account(account_type)),
                Err(e) => {
                    &&& e == ExecError::AccountExists
                    &&& old(self).world().dom().contains(id@)
                    &&& final(self).world() == old(self).world()
                },
            },
    ;
}

/// The production world state: account bindings in insertion order, the
/// latest binding for an id being the account it denotes.
#[derive(Debug)]
pub struct AccountMap {
    entries: Vec<(String, Account)>,
}

impl View for AccountMap {
    type V = Map<Seq<char>, AccountV>;

    closed spec fn view(&self) -> Map<Seq<char>, AccountV> {
        acct_map_of(acct_pairs_view(self.entries@))
    }
}

impl AccountMap {
    /// An empty world state.
    pub fn new() -> (r: AccountMap)
        ensures
            r@ == Map::<Seq<char>, AccountV>::empty(),
    {
        let r = AccountMap { entries: Vec::new() };
        proof {
            assert(r@ =~= Map::<Seq<char>, AccountV>::empty());
        }
        r
    }

    /// A deep copy representing the same mapping: the snapshot that block
    /// admission restores on rollback.
    pub fn duplicate(&self) -> (r: AccountMap)
        ensures
            r@ == self@,
    {
        let mut entries: Vec<(String, Account)> = Vec::new();
        let mut i: usize = 0;
        while i < self.entries.len()
            invariant
                i <= self.entries.len(),
                acct_pairs_view(entries@) == acct_pairs_view(self.entries@.subrange(0, i as int)),
            decreases self.entries.len() - i,
        {
            let k = self.entries[i].0.clone();
            let v = self.entries[i].1.duplicate();
            proof {
                assert(k@ == self.entries@[i as int].0@);
                assert(v@ == self.entries@[i as int].1@);
            }
            entries.push((k, v));
            proof {
                let lhs = acct_pairs_view(entries@);
                let rhs = acct_pairs_view(self.entries@.subrange(0, (i + 1) as int));
                let prev = acct_pairs_view(self.entries@.subrange(0, i as int));
                assert(lhs.len() == entries@.len());
                assert(prev.len() == i as int);
                assert(entries@.len() == i + 1);
                assert(rhs.len() == i + 1);
                assert forall|j: int| 0 <= j < lhs.len() implies lhs[j] == rhs[j] by {
                    if j < i as int {
                        assert(lhs[j] == prev[j]);
                        assert(rhs[j] == prev[j]);
                    } else {
                        assert(lhs[j] == (k@, v@));
                        assert(rhs[j] == (self.entries@[i as int].0@, self.entries@[i as int].1@));
                    }
                }
                assert(lhs =~= rhs);
            }
            i += 1;
        }
        proof {
            assert(self.entries@.subrange(0, self.entries@.len() as int) =~= self.entries@);
        }
        let r = AccountMap { entries };
        r
    }
}

impl WorldState for AccountMap {
    open spec fn world(&self) -> Map<Seq<char>, AccountV> {
        self@
    }

    fn get_user_ids(&self) -> (ids: Vec<String>) {
        let mut ids: Vec<String> = Vec::new();
        let mut i: usize = 0;
        while i < self.entries.len()
            invariant
                i <= self.entries.len(),
                ids@.map_values(|s: String| s@) == acct_pairs_view(
                    self.entries@.subrange(0, i as int),
                ).map_values(|p: (Seq<char>, AccountV)| p.0),
            decreases self.entries.len() - i,
        {
            let k = self.entries[i].0.clone();
            proof {
                assert(k@ == self.entries@[i as int].0@);
            }
            ids.push(k);
            proof {
                let lhs = ids@.map_values(|s: String| s@);
                let rhs = acct_pairs_view(self.entries@.subrange(0, (i + 1) as int)).map_values(
                    |p: (Seq<char>, AccountV)| p.0,
                );
                let prev = acct_pairs_view(self.entries@.subrange(0, i as int)).map_values(
                    |p: (Seq<char>, AccountV)| p.0,
                );
                assert(prev.len() == i as int);
                assert(lhs.len() == i + 1);
                assert(rhs.len() == i + 1);
                assert forall|j: int| 0 <= j < lhs.len() implies lhs[j] == rhs[j] by {
                    if j < i as int {
                        assert(lhs[j] == prev[j]);
                        assert(rhs[j] == prev[j]);
                    } else {
                        assert(lhs[j] == k@);
                        assert(rhs[j] == self.entries@[i as int].0@);
                    }
                }
                assert(lhs =~= rhs);
            }
            i += 1;
        }
        proof {
            assert(self.entries@.subrange(0, self.entries@.len() as int) =~= self.entries@);
            let pairs = acct_pairs_view(self.entries@);
            let keys = pairs.map_values(|p: (Seq<char>, AccountV)| p.0);
            assert forall|k: Seq<char>|
                self.world().dom().contains(k) <==> ids@.map_values(|s: String| s@).contains(
                    k,
                ) by {
                lemma_find_some_iff(pairs, k);
                if exists|j: int| 0 <= j < pairs.len() && pairs[j].0 == k {
                    let j = choose|j: int| 0 <= j < pairs.len() && pairs[j].0 == k;
                    assert(keys[j] == k);
                }
                if keys.contains(k) {
                    let j = choose|j: int| 0 <= j < keys.len() && keys[j] == k;
                    assert(pairs[j].0 == k);
                }
            }
        }
        ids
    }

    fn get_account_by_id(&self, id: &String) -> (r: Option<&Account>) {
        let ghost pairs = acct_pairs_view(self.entries@);
        let mut i: usize = self.entries.len();
        proof {
            assert(self.entries@.subrange(0, self.entries@.len() as int) =~= self.entries@);
        }
        while i > 0
            invariant
                i <= self.entries.len(),
                acct_find(pairs, id@) == acct_find(
                    acct_pairs_view(self.entries@.subrange(0, i as int)),
                    id@,
                ),
                pairs == acct_pairs_view(self.entries@),
            decreases i,
        {
            i = i - 1;
            let matches_key = self.entries[i].0 == *id;
            proof {
                let cur = acct_pairs_view(self.entries@.subrange(0, (i + 1) as int));
                assert(cur.len() == i + 1);
                assert(cur.last() == (self.entries@[i as int].0@, self.entries@[i as int].1@));
                assert(cur.drop_last() =~= acct_pairs_view(self.entries@.subrange(0, i as int)));
            }
            if matches_key {
                proof {
                    assert(acct_find(pairs, id@) == Some(self.entries@[i as int].1@));
                }
                return Some(&self.entries[i].1);
            }
        }
        proof {
            assert(acct_pairs_view(self.entries@.subrange(0, 0)).len() == 0);
        }
        None
    }

    fn set_account_tokens(&mut self, id: &String, tokens: u128) -> (ok: bool) {
        let ghost pairs = acct_pairs_view(self.entries@);
        let mut i: usize = self.entries.len();
        proof {
            assert(self.entries@.subrange(0, self.entries@.len() as int) =~= self.entries@);
        }
        while i > 0
            invariant
                i <= self.entries.len(),
                self.entries@ == old(self).entries@,
                pairs == acct_pairs_view(self.entries@),
                acct_find(pairs, id@) == acct_find(
                    acct_pairs_view(self.entries@.subrange(0, i as int)),
                    id@,
                ),
                forall|j: int| i <= j < pairs.len() ==> pairs[j].0 != id@,
            decreases i,
        {
            i = i - 1;
            let matches_key = self.entries[i].0 == *id;
            proof {
                let cur = acct_pairs_view(self.entries@.subrange(0, (i + 1) as int));
                assert(cur.len() == i + 1);
                assert(cur.last() == (self.entries@[i as int].0@, self.entries@[i as int].1@));
                assert(cur.drop_last() =~= acct_pairs_view(self.entries@.subrange(0, i as int)));
            }
            if matches_key {
                let ghost old_av = self.entries@[i as int].1@;
                proof {
                    assert(acct_find(pairs, id@) == Some(old_av));
                    assert(old(self).world().dom().contains(id@));
                    assert(old(self).world()[id@] == old_av);
                }
                let updated = self.entries[i].1.with_tokens(tokens);
                let replacement_key = self.entries[i].0.clone();
                let ghost av = updated@;
                self.entries[i] = (replacement_key, updated);
                proof {
                    assert(av == (AccountV { tokens, ..old_av }));
                    assert(acct_pairs_view(self.entries@) =~= pairs.update(
                        i as int,
                        (id@, av),
                    ));
                    assert(pairs[i as int].0 == id@);
                    assert forall|key: Seq<char>|
                        acct_find(pairs.update(i as int, (id@, av)), key) == (if key == id@ {
                            Some(av)
                        } else {
                            acct_find(pairs, key)
                        }) by {
                        lemma_find_after_update(pairs, i as int, av, key);
                    }
                    assert(acct_map_of(pairs.update(i as int, (id@, av))) =~= acct_map_of(
                        pairs,
                    ).insert(id@, av));
                    assert(self.world() == acct_map_of(pairs.update(i as int, (id@, av))));
                    assert(self.world() == old(self).world().insert(id@, av));
                }
                return true;
            }
        }
        proof {
            assert(acct_pairs_view(self.entries@.subrange(0, 0)).len() == 0);
        }
        false
    }

    fn create_account(&mut self, id: String, account_type: AccountType) -> (r: Result<
        (),
        ExecError,
    >) {
        let exists_already = match WorldState::get_account_by_id(self, &id) {
            Some(_) => true,
            None => false,
        };
        if exists_already {
            Err(ExecError::AccountExists)
        } else {
            let acc = Account::new(account_type);
            let ghost pairs = acct_pairs_view(self.entries@);
            let ghost av = acc@;
            let ghost idv = id@;
            self.entries.push((id, acc));
            proof {
                assert(acct_pairs_view(self.entries@) =~= pairs.push((idv, av)));
                lemma_push_is_insert(pairs, idv, av);
            }
            Ok(())
        }
    }
}

} // verus!
