//! The accounts configuration: for each account name, its endpoint and non-secret metadata.
//! API tokens never appear here; they live in the OS keystore under the account's name.

use vstd::prelude::*;
use crate::text::{chars_of, eq_ignore_case, eq_ignore_case_str};

verus! {

broadcast use vstd::string::group_string_axioms;

/// One configured account.
#[derive(Debug)]
pub struct AccountConfig {
    /// The Bugsink base URL.
    pub endpoint: String,
    /// A human label, the endpoint's host.
    pub identity: String,
    /// When the account was added, as an RFC 3339 UTC timestamp.
    pub added_at: String,
}

impl AccountConfig {
    /// A field-by-field copy.
    pub fn copy(&self) -> (r: AccountConfig)
        ensures
            r == *self,
    {
        AccountConfig {
            endpoint: self.endpoint.clone(),
            identity: self.identity.clone(),
            added_at: self.added_at.clone(),
        }
    }
}

/// The accounts, in the order they were added.
#[derive(Debug)]
pub struct Config {
    pub accounts: Vec<(String, AccountConfig)>,
}

/// The index of the first account whose name equals `name` ignoring ASCII case.
pub open spec fn find_account(accounts: Seq<(String, AccountConfig)>, name: Seq<char>) -> Option<int>
    decreases accounts.len(),
{
    if accounts.len() == 0 {
        None
    } else if eq_ignore_case(accounts[0].0@, name) {
        Some(0)
    } else {
        match find_account(accounts.drop_first(), name) {
            Some(i) => Some(i + 1),
            None => None,
        }
    }
}

/// `find_account` finds the first account whose name matches.
pub proof fn lemma_find_account(accounts: Seq<(String, AccountConfig)>, name: Seq<char>)
    ensures
        find_account(accounts, name) matches Some(i) ==> 0 <= i < accounts.len() && eq_ignore_case(
            accounts[i].0@,
            name,
        ) && forall|j: int| 0 <= j < i ==> !eq_ignore_case(#[trigger] accounts[j].0@, name),
        find_account(accounts, name) is None ==> forall|j: int|
            0 <= j < accounts.len() ==> !eq_ignore_case(#[trigger] accounts[j].0@, name),
    decreases accounts.len(),
{
    if accounts.len() > 0 {
        lemma_find_account(accounts.drop_first(), name);
        assert forall|j: int| 1 <= j < accounts.len() implies accounts[j] == accounts.drop_first()[j
            - 1] by {}
    }
}

/// The names of the accounts.
pub open spec fn names(accounts: Seq<(String, AccountConfig)>) -> Seq<Seq<char>> {
    Seq::new(accounts.len(), |i: int| accounts[i].0@)
}

/// The accounts after storing `account` under `name`: it replaces the entry of the same
/// name (ignoring ASCII case) in place, or comes last.
pub open spec fn inserted(
    accounts: Seq<(String, AccountConfig)>,
    name: String,
    account: AccountConfig,
) -> Seq<(String, AccountConfig)> {
    match find_account(accounts, name@) {
        Some(i) => accounts.update(i, (name, account)),
        None => accounts.push((name, account)),
    }
}

/// The accounts without the one named `name` (ignoring ASCII case).
pub open spec fn removed(accounts: Seq<(String, AccountConfig)>, name: Seq<char>) -> Seq<
    (String, AccountConfig),
> {
    match find_account(accounts, name) {
        Some(i) => accounts.remove(i),
        None => accounts,
    }
}

/// No two accounts share a name, ignoring ASCII case.
pub open spec fn unique_names(accounts: Seq<(String, AccountConfig)>) -> bool {
    forall|i: int, j: int|
        0 <= i < accounts.len() && 0 <= j < accounts.len() && i != j ==> !eq_ignore_case(
            #[trigger] accounts[i].0@,
            #[trigger] accounts[j].0@,
        )
}

impl Config {
    /// No two accounts share a name, ignoring ASCII case.
    pub open spec fn wf(&self) -> bool {
        unique_names(self.accounts@)
    }

    /// A configuration with no accounts.
    pub fn new() -> (r: Config)
        ensures
            r.accounts@.len() == 0,
            r.wf(),
    {
        Config { accounts: Vec::new() }
    }

    /// The index of the account named `name`, ignoring ASCII case.
    pub fn position(&self, name: &str) -> (r: Option<usize>)
        ensures
            match r {
                Some(i) => find_account(self.accounts@, name@) == Some(i as int),
                None => find_account(self.accounts@, name@) is None,
            },
            r matches Some(i) ==> i < self.accounts@.len(),
    {
        proof {
            lemma_find_account(self.accounts@, name@);
        }
        let mut i: usize = 0;
        while i < self.accounts.len()
            invariant
                i <= self.accounts@.len(),
                forall|j: int| 0 <= j < i ==> !eq_ignore_case(#[trigger] self.accounts@[j].0@, name@),
                find_account(self.accounts@, name@) matches Some(k) ==> 0 <= k < self.accounts@.len()
                    && eq_ignore_case(self.accounts@[k].0@, name@) && forall|j: int|
                    0 <= j < k ==> !eq_ignore_case(#[trigger] self.accounts@[j].0@, name@),
                find_account(self.accounts@, name@) is None ==> forall|j: int|
                    0 <= j < self.accounts@.len() ==> !eq_ignore_case(
                        #[trigger] self.accounts@[j].0@,
                        name@,
                    ),
            decreases self.accounts.len() - i,
        {
            if eq_ignore_case_str(self.accounts[i].0.as_str(), name) {
                return Some(i);
            }
            i += 1;
        }
        None
    }

    /// The account named `name`, ignoring ASCII case, with its name as configured.
    pub fn find(&self, name: &str) -> (r: Option<(&String, &AccountConfig)>)
        ensures
            match r {
                Some((k, a)) => find_account(self.accounts@, name@) matches Some(i) && *k
                    == self.accounts@[i].0 && *a == self.accounts@[i].1,
                None => find_account(self.accounts@, name@) is None,
            },
    {
        match self.position(name) {
            Some(i) => Some((&self.accounts[i].0, &self.accounts[i].1)),
            None => None,
        }
    }

    /// Adds an account, or replaces the one of the same name (ignoring ASCII case) in place.
    pub fn insert(&mut self, name: String, account: AccountConfig)
        requires
            old(self).wf(),
        ensures
            final(self).wf(),
            final(self).accounts@ == inserted(old(self).accounts@, name, account),
    {
        proof {
            lemma_find_account(self.accounts@, name@);
        }
        match self.position(name.as_str()) {
            Some(i) => {
                let ghost before = self.accounts@;
                self.accounts.set(i, (name, account));
                proof {
                    assert forall|a: int, b: int|
                        0 <= a < self.accounts@.len() && 0 <= b < self.accounts@.len() && a != b implies !eq_ignore_case(
                        #[trigger] self.accounts@[a].0@,
                        #[trigger] self.accounts@[b].0@,
                    ) by {
                        if a == i {
                            lemma_eq_ignore_case_trans(before[b].0@, before[a].0@, name@);
                        } else if b == i {
                            lemma_eq_ignore_case_trans(before[a].0@, before[b].0@, name@);
                        }
                    }
                }
            },
            None => {
                let ghost before = self.accounts@;
                self.accounts.push((name, account));
                proof {
                    assert forall|a: int, b: int|
                        0 <= a < self.accounts@.len() && 0 <= b < self.accounts@.len() && a != b implies !eq_ignore_case(
                        #[trigger] self.accounts@[a].0@,
                        #[trigger] self.accounts@[b].0@,
                    ) by {
                        if a == before.len() {
                            lemma_eq_ignore_case_sym(self.accounts@[a].0@, self.accounts@[b].0@);
                            assert(!eq_ignore_case(before[b].0@, name@));
                        } else if b == before.len() {
                            assert(!eq_ignore_case(before[a].0@, name@));
                        }
                    }
                }
            },
        }
    }

    /// Removes the account named `name` (ignoring ASCII case), keeping the order of the rest.
    pub fn remove(&mut self, name: &str)
        requires
            old(self).wf(),
        ensures
            final(self).wf(),
            final(self).accounts@ == removed(old(self).accounts@, name@),
    {
        match self.position(name) {
            Some(i) => {
                let ghost before = self.accounts@;
                let _ = self.accounts.remove(i);
                proof {
                    before.remove_ensures(i as int);
                    assert forall|a: int, b: int|
                        0 <= a < self.accounts@.len() && 0 <= b < self.accounts@.len() && a != b implies !eq_ignore_case(
                        #[trigger] self.accounts@[a].0@,
                        #[trigger] self.accounts@[b].0@,
                    ) by {
                        let a2 = if a < i { a } else { a + 1 };
                        let b2 = if b < i { b } else { b + 1 };
                        assert(self.accounts@[a] == before[a2]);
                        assert(self.accounts@[b] == before[b2]);
                    }
                }
            },
            None => {},
        }
    }
}

/// Reading back what was stored: after storing an account under `name`, looking up any
/// name equal to it ignoring ASCII case finds that account under the name as given.
pub proof fn lemma_find_after_insert(
    accounts: Seq<(String, AccountConfig)>,
    name: String,
    account: AccountConfig,
    query: Seq<char>,
)
    requires
        unique_names(accounts),
        eq_ignore_case(name@, query),
    ensures
        find_account(inserted(accounts, name, account), query) matches Some(i) && inserted(
            accounts,
            name,
            account,
        )[i] == (name, account),
{
    let after = inserted(accounts, name, account);
    lemma_find_account(accounts, name@);
    lemma_find_account(after, query);
    let i = match find_account(accounts, name@) {
        Some(i) => i,
        None => accounts.len() as int,
    };
    assert(after[i] == (name, account));
    assert(eq_ignore_case(after[i].0@, query));
    assert forall|j: int| 0 <= j < i implies !eq_ignore_case(#[trigger] after[j].0@, query) by {
        assert(after[j] == accounts[j]);
        if eq_ignore_case(accounts[j].0@, query) {
            lemma_eq_ignore_case_sym(name@, query);
            lemma_eq_ignore_case_trans(accounts[j].0@, query, name@);
        }
    }
    match find_account(after, query) {
        Some(k) => {
            if k < i {
                assert(eq_ignore_case(after[k].0@, query));
                assert(false);
            } else if k > i {
                assert(!eq_ignore_case(after[i].0@, query));
                assert(false);
            }
        },
        None => {
            assert(!eq_ignore_case(after[i].0@, query));
            assert(false);
        },
    }
}

/// Storing an account leaves every other name where it was: a lookup of a name that differs
/// from the stored one (ignoring ASCII case) finds the same account as before.
pub proof fn lemma_insert_keeps_others(
    accounts: Seq<(String, AccountConfig)>,
    name: String,
    account: AccountConfig,
    query: Seq<char>,
)
    requires
        !eq_ignore_case(name@, query),
    ensures
        find_account(inserted(accounts, name, account), query) == find_account(accounts, query),
{
    let after = inserted(accounts, name, account);
    lemma_find_account(accounts, query);
    lemma_find_account(after, query);
    lemma_find_account(accounts, name@);
    assert forall|j: int| 0 <= j < accounts.len() implies eq_ignore_case(
        #[trigger] after[j].0@,
        query,
    ) == eq_ignore_case(accounts[j].0@, query) by {
        if find_account(accounts, name@) == Some(j) {
            assert(after[j].0@ == name@);
            assert(!eq_ignore_case(accounts[j].0@, query)) by {
                if eq_ignore_case(accounts[j].0@, query) {
                    lemma_eq_ignore_case_sym(accounts[j].0@, name@);
                    lemma_eq_ignore_case_trans(name@, accounts[j].0@, query);
                }
            }
        } else {
            assert(after[j] == accounts[j]);
        }
    }
    if find_account(accounts, name@) is None {
        let n = accounts.len() as int;
        assert(after[n].0@ == name@);
    }
    match (find_account(accounts, query), find_account(after, query)) {
        (Some(a), Some(b)) => {
            if a < b {
                assert(eq_ignore_case(after[a].0@, query));
            } else if b < a {
                assert(eq_ignore_case(accounts[b].0@, query));
            }
        },
        (Some(a), None) => {
            assert(eq_ignore_case(after[a].0@, query));
        },
        (None, Some(b)) => {
            if b < accounts.len() {
                assert(eq_ignore_case(accounts[b].0@, query));
            }
        },
        (None, None) => {},
    }
}

/// After removing `name`, no account answers to it, and the rest keep their order.
pub proof fn lemma_find_after_remove(accounts: Seq<(String, AccountConfig)>, name: Seq<char>)
    requires
        unique_names(accounts),
    ensures
        find_account(removed(accounts, name), name) is None,
        unique_names(removed(accounts, name)),
{
    let after = removed(accounts, name);
    lemma_find_account(accounts, name);
    lemma_find_account(after, name);
    match find_account(accounts, name) {
        Some(i) => {
            assert forall|j: int| 0 <= j < after.len() implies !eq_ignore_case(
                #[trigger] after[j].0@,
                name,
            ) by {
                let j2 = if j < i { j } else { j + 1 };
                assert(after[j] == accounts[j2]);
                if eq_ignore_case(accounts[j2].0@, name) {
                    lemma_eq_ignore_case_trans(name, accounts[j2].0@, accounts[i].0@);
                    lemma_eq_ignore_case_sym(name, accounts[j2].0@);
                    lemma_eq_ignore_case_sym(name, accounts[i].0@);
                    lemma_eq_ignore_case_trans(accounts[j2].0@, name, accounts[i].0@);
                }
            }
            assert forall|a: int, b: int|
                0 <= a < after.len() && 0 <= b < after.len() && a != b implies !eq_ignore_case(
                #[trigger] after[a].0@,
                #[trigger] after[b].0@,
            ) by {
                let a2 = if a < i { a } else { a + 1 };
                let b2 = if b < i { b } else { b + 1 };
                assert(after[a] == accounts[a2]);
                assert(after[b] == accounts[b2]);
            }
            if let Some(k) = find_account(after, name) {
                assert(eq_ignore_case(after[k].0@, name));
            }
        },
        None => {},
    }
}

/// Storing an account under a new name and then removing that name gives back the
/// accounts as they were.
pub proof fn lemma_remove_undoes_insert(
    accounts: Seq<(String, AccountConfig)>,
    name: String,
    account: AccountConfig,
)
    requires
        find_account(accounts, name@) is None,
    ensures
        removed(inserted(accounts, name, account), name@) == accounts,
{
    let after = inserted(accounts, name, account);
    lemma_find_account(accounts, name@);
    lemma_find_account(after, name@);
    let n = accounts.len() as int;
    assert(after == accounts.push((name, account)));
    assert(eq_ignore_case(name@, name@));
    assert(after[n] == (name, account));
    match find_account(after, name@) {
        Some(k) => {
            if k < n {
                assert(after[k] == accounts[k]);
                assert(!eq_ignore_case(accounts[k].0@, name@));
                assert(false);
            } else if k > n {
                assert(false);
            }
        },
        None => {
            assert(!eq_ignore_case(after[n].0@, name@));
            assert(false);
        },
    }
    assert(after.remove(n) =~= accounts);
}

/// Equality ignoring ASCII case is symmetric.
pub proof fn lemma_eq_ignore_case_sym(a: Seq<char>, b: Seq<char>)
    ensures
        eq_ignore_case(a, b) == eq_ignore_case(b, a),
{
}

/// Equality ignoring ASCII case is transitive.
pub proof fn lemma_eq_ignore_case_trans(a: Seq<char>, b: Seq<char>, c: Seq<char>)
    ensures
        eq_ignore_case(a, b) && eq_ignore_case(b, c) ==> eq_ignore_case(a, c),
        eq_ignore_case(a, b) && eq_ignore_case(a, c) ==> eq_ignore_case(b, c),
{
    if eq_ignore_case(a, b) && eq_ignore_case(b, c) {
        assert forall|i: int| 0 <= i < a.len() implies crate::text::fold(#[trigger] a[i]) == crate::text::fold(c[i]) by {
            assert(crate::text::fold(a[i]) == crate::text::fold(b[i]));
        }
    }
    if eq_ignore_case(a, b) && eq_ignore_case(a, c) {
        assert forall|i: int| 0 <= i < b.len() implies crate::text::fold(#[trigger] b[i]) == crate::text::fold(c[i]) by {
            assert(crate::text::fold(a[i]) == crate::text::fold(b[i]));
        }
    }
}


/// Code-point order on strings, which is the byte order of their UTF-8 encodings and the
/// order of `String`'s `Ord`.
pub open spec fn lex_lt(a: Seq<char>, b: Seq<char>) -> bool
    decreases a.len(),
{
    if a.len() == 0 {
        b.len() > 0
    } else if b.len() == 0 {
        false
    } else if a[0] != b[0] {
        (a[0] as u32) < (b[0] as u32)
    } else {
        lex_lt(a.drop_first(), b.drop_first())
    }
}

/// Code-point order is transitive.
pub proof fn lemma_lex_lt_trans(a: Seq<char>, b: Seq<char>, c: Seq<char>)
    requires
        lex_lt(a, b),
        lex_lt(b, c),
    ensures
        lex_lt(a, c),
    decreases a.len(),
{
    broadcast use vstd::utf8::char_u32_cast;

    if a.len() > 0 && b.len() > 0 && c.len() > 0 && a[0] == b[0] && b[0] == c[0] {
        lemma_lex_lt_trans(a.drop_first(), b.drop_first(), c.drop_first());
    }
}

/// Code-point order is irreflexive.
pub proof fn lemma_lex_lt_irrefl(a: Seq<char>)
    ensures
        !lex_lt(a, a),
    decreases a.len(),
{
    if a.len() > 0 {
        lemma_lex_lt_irrefl(a.drop_first());
    }
}

/// Whether `a` comes before `b`.
pub fn lex_less(a: &str, b: &str) -> (r: bool)
    ensures
        r == lex_lt(a@, b@),
{
    let x = chars_of(a);
    let y = chars_of(b);
    let mut i: usize = 0;
    assert(x@.skip(0) == x@ && y@.skip(0) == y@);
    loop
        invariant
            x@ == a@,
            y@ == b@,
            i <= x@.len(),
            i <= y@.len(),
            lex_lt(a@, b@) == lex_lt(x@.skip(i as int), y@.skip(i as int)),
        decreases x@.len() - i,
    {
        if i == x.len() {
            return i < y.len();
        }
        if i == y.len() {
            return false;
        }
        assert(x@.skip(i as int)[0] == x@[i as int]);
        assert(y@.skip(i as int)[0] == y@[i as int]);
        if x[i] != y[i] {
            return (x[i] as u32) < (y[i] as u32);
        }
        assert(x@.skip(i as int).drop_first() == x@.skip(i + 1));
        assert(y@.skip(i as int).drop_first() == y@.skip(i + 1));
        i += 1;
    }
}

/// Whether the accounts are in name order.
pub open spec fn sorted_by_name(accounts: Seq<(String, AccountConfig)>) -> bool {
    forall|i: int, j: int|
        0 <= i < j < accounts.len() ==> !lex_lt(#[trigger] accounts[j].0@, #[trigger] accounts[i].0@)
}

fn copy_entry(e: &(String, AccountConfig)) -> (r: (String, AccountConfig))
    ensures
        r == *e,
{
    (e.0.clone(), e.1.copy())
}

impl Config {
    /// The accounts in name order.
    pub fn sorted(&self) -> (r: Vec<(String, AccountConfig)>)
        ensures
            r@.to_multiset() == self.accounts@.to_multiset(),
            r@.len() == self.accounts@.len(),
            sorted_by_name(r@),
    {
        broadcast use vstd::seq_lib::group_to_multiset_ensures;

        let mut rest: Vec<(String, AccountConfig)> = Vec::new();
        for i in 0..self.accounts.len()
            invariant
                rest@ == self.accounts@.take(i as int),
        {
            rest.push(copy_entry(&self.accounts[i]));
            assert(self.accounts@.take(i + 1) == self.accounts@.take(i as int).push(
                self.accounts@[i as int],
            ));
        }
        assert(self.accounts@.take(self.accounts@.len() as int) == self.accounts@);
        let mut out: Vec<(String, AccountConfig)> = Vec::new();
        while rest.len() > 0
            invariant
                out@.to_multiset().add(rest@.to_multiset()) == self.accounts@.to_multiset(),
                sorted_by_name(out@),
                forall|x: int, y: int|
                    0 <= x < out@.len() && 0 <= y < rest@.len() ==> !lex_lt(
                        #[trigger] rest@[y].0@,
                        #[trigger] out@[x].0@,
                    ),
            decreases rest.len(),
        {
            let mut best: usize = 0;
            let mut k: usize = 1;
            proof {
                lemma_lex_lt_irrefl(rest@[0].0@);
            }
            while k < rest.len()
                invariant
                    best < rest@.len(),
                    1 <= k <= rest@.len(),
                    forall|z: int| 0 <= z < k ==> !lex_lt(#[trigger] rest@[z].0@, rest@[best as int].0@),
                decreases rest.len() - k,
            {
                if lex_less(rest[k].0.as_str(), rest[best].0.as_str()) {
                    proof {
                        assert forall|z: int| 0 <= z < k + 1 implies !lex_lt(
                            #[trigger] rest@[z].0@,
                            rest@[k as int].0@,
                        ) by {
                            if z < k && lex_lt(rest@[z].0@, rest@[k as int].0@) {
                                lemma_lex_lt_trans(rest@[z].0@, rest@[k as int].0@, rest@[best as int].0@);
                            }
                            if z == k {
                                lemma_lex_lt_irrefl(rest@[k as int].0@);
                            }
                        }
                    }
                    best = k;
                }
                k += 1;
            }
            let ghost before_rest = rest@;
            let ghost before_out = out@;
            let e = rest.remove(best);
            proof {
                before_rest.remove_ensures(best as int);
                assert(rest@ == before_rest.remove(best as int));
            }
            out.push(e);
            proof {
                assert(out@ == before_out.push(e));
                before_out.to_multiset_ensures();
                before_rest.to_multiset_ensures();
                assert(before_rest[best as int] == e);
                assert(out@.to_multiset() == before_out.to_multiset().insert(e));
                assert(rest@.to_multiset() == before_rest.to_multiset().remove(e));
                assert(before_rest.to_multiset().count(e) > 0) by {
                    assert(before_rest.contains(e)) by {
                        assert(before_rest[best as int] == e);
                    }
                }
                assert(out@.to_multiset().add(rest@.to_multiset()) =~= before_out.to_multiset().add(
                    before_rest.to_multiset(),
                ));
                assert forall|x: int, y: int|
                    0 <= x < out@.len() && 0 <= y < rest@.len() implies !lex_lt(
                    #[trigger] rest@[y].0@,
                    #[trigger] out@[x].0@,
                ) by {
                    let y2 = if y < best { y } else { y + 1 };
                    assert(rest@[y] == before_rest[y2]);
                    if x < before_out.len() {
                        assert(out@[x] == before_out[x]);
                    }
                }
                assert forall|i: int, j: int|
                    0 <= i < j < out@.len() implies !lex_lt(
                    #[trigger] out@[j].0@,
                    #[trigger] out@[i].0@,
                ) by {
                    if j < before_out.len() {
                        assert(out@[j] == before_out[j]);
                        assert(out@[i] == before_out[i]);
                    } else {
                        assert(out@[i] == before_out[i]);
                        assert(before_rest[best as int] == e);
                    }
                }
            }
        }
        proof {
            assert(rest@.to_multiset().len() == 0);
            assert(out@.to_multiset().add(rest@.to_multiset()) =~= out@.to_multiset());
            assert(out@.to_multiset().len() == out@.len());
            assert(self.accounts@.to_multiset().len() == self.accounts@.len());
        }
        out
    }
}

} // verus!
