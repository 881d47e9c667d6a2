//! The persisted key spaces of the ledger, as verified in-memory maps.
//! Each map is an association vector with unique keys whose view is a
//! mathematical `Map`.

use vstd::prelude::*;

verus! {

/// A map from token ids to byte values (owners, per-token approvals, URIs).
pub struct TokenMap {
    entries: Vec<(i128, Vec<u8>)>,
}

/// The mathematical map described by an association sequence: later entries
/// win, though the invariant keeps keys unique.
pub open spec fn token_map_of(s: Seq<(i128, Vec<u8>)>) -> Map<int, Seq<u8>>
    decreases s.len(),
{
    if s.len() == 0 {
        Map::empty()
    } else {
        token_map_of(s.drop_last()).insert(s.last().0 as int, s.last().1@)
    }
}

impl View for TokenMap {
    type V = Map<int, Seq<u8>>;

    closed spec fn view(&self) -> Map<int, Seq<u8>> {
        token_map_of(self.entries@)
    }
}

proof fn lemma_token_map_at(s: Seq<(i128, Vec<u8>)>, i: int)
    requires
        0 <= i < s.len(),
        forall|j: int, k: int| 0 <= j < k < s.len() ==> (#[trigger] s[j]).0 != (#[trigger] s[k]).0,
    ensures
        token_map_of(s).contains_key(s[i].0 as int),
        token_map_of(s)[s[i].0 as int] == s[i].1@,
    decreases s.len(),
{
    if i < s.len() - 1 {
        lemma_token_map_at(s.drop_last(), i);
        assert(s.drop_last()[i] == s[i]);
        assert(s[i].0 != s.last().0);
    }
}

proof fn lemma_token_map_absent(s: Seq<(i128, Vec<u8>)>, key: i128)
    requires
        forall|j: int| 0 <= j < s.len() ==> (#[trigger] s[j]).0 != key,
    ensures
        !token_map_of(s).contains_key(key as int),
    decreases s.len(),
{
    if s.len() > 0 {
        lemma_token_map_absent(s.drop_last(), key);
    }
}

proof fn lemma_token_map_update(s: Seq<(i128, Vec<u8>)>, i: int, value: Vec<u8>)
    requires
        0 <= i < s.len(),
        forall|j: int, k: int| 0 <= j < k < s.len() ==> (#[trigger] s[j]).0 != (#[trigger] s[k]).0,
    ensures
        token_map_of(s.update(i, (s[i].0, value))) == token_map_of(s).insert(
            s[i].0 as int,
            value@,
        ),
    decreases s.len(),
{
    let t = s.update(i, (s[i].0, value));
    if i == s.len() - 1 {
        assert(t.drop_last() =~= s.drop_last());
        assert(token_map_of(t) =~= token_map_of(s).insert(s[i].0 as int, value@));
    } else {
        lemma_token_map_update(s.drop_last(), i, value);
        assert(t.drop_last() =~= s.drop_last().update(i, (s[i].0, value)));
        assert(s.drop_last()[i] == s[i]);
        assert(s[i].0 != s.last().0);
        assert(t.last() == s.last());
        assert(token_map_of(t) =~= token_map_of(s).insert(s[i].0 as int, value@));
    }
}

impl TokenMap {
    /// Unique keys: the association vector holds each token id at most once.
    pub closed spec fn inv(&self) -> bool {
        forall|j: int, k: int|
            0 <= j < k < self.entries@.len() ==> (#[trigger] self.entries@[j]).0 != (
            #[trigger] self.entries@[k]).0
    }

    /// The empty map.
    pub fn new() -> (r: TokenMap)
        ensures
            r.inv(),
            r@ == Map::<int, Seq<u8>>::empty(),
    {
        TokenMap { entries: Vec::new() }
    }

    /// Look a token id up.
    pub fn get(&self, key: i128) -> (r: Option<&Vec<u8>>)
        requires
            self.inv(),
        ensures
            match r {
                Some(v) => self@.contains_key(key as int) && v@ == self@[key as int],
                None => !self@.contains_key(key as int),
            },
    {
        let n = self.entries.len();
        let mut i: usize = 0;
        while i < n
            invariant
                0 <= i <= n,
                self.entries@.len() == n,
                self.inv(),
                forall|j: int| 0 <= j < i ==> (#[trigger] self.entries@[j]).0 != key,
            decreases n - i,
        {
            if self.entries[i].0 == key {
                proof {
                    lemma_token_map_at(self.entries@, i as int);
                }
                return Some(&self.entries[i].1);
            }
            i += 1;
        }
        proof {
            lemma_token_map_absent(self.entries@, key);
        }
        None
    }

    /// Store a value under a token id, overwriting any previous one.
    pub fn set(&mut self, key: i128, value: Vec<u8>)
        requires
            old(self).inv(),
        ensures
            final(self).inv(),
            final(self)@ == old(self)@.insert(key as int, value@),
    {
        let n = self.entries.len();
        let mut i: usize = 0;
        while i < n
            invariant
                0 <= i <= n,
                self.entries@.len() == n,
                self.inv(),
                self.entries@ == old(self).entries@,
                forall|j: int| 0 <= j < i ==> (#[trigger] self.entries@[j]).0 != key,
            decreases n - i,
        {
            if self.entries[i].0 == key {
                proof {
                    lemma_token_map_update(self.entries@, i as int, value);
                }
                self.entries[i] = (key, value);
                return ;
            }
            i += 1;
        }
        proof {
            assert(self.entries@.push((key, value)).drop_last() =~= self.entries@);
        }
        self.entries.push((key, value));
    }
}



/// A map from identities to integers (balances, nonces).
pub struct IdentMap {
    entries: Vec<(Vec<u8>, i128)>,
}

/// The mathematical map described by an association sequence of identities.
pub open spec fn ident_map_of(s: Seq<(Vec<u8>, i128)>) -> Map<Seq<u8>, int>
    decreases s.len(),
{
    if s.len() == 0 {
        Map::empty()
    } else {
        ident_map_of(s.drop_last()).insert(s.last().0@, s.last().1 as int)
    }
}

impl View for IdentMap {
    type V = Map<Seq<u8>, int>;

    closed spec fn view(&self) -> Map<Seq<u8>, int> {
        ident_map_of(self.entries@)
    }
}

proof fn lemma_ident_map_at(s: Seq<(Vec<u8>, i128)>, i: int)
    requires
        0 <= i < s.len(),
        forall|j: int, k: int| 0 <= j < k < s.len() ==> (#[trigger] s[j]).0@ != (#[trigger] s[k]).0@,
    ensures
        ident_map_of(s).contains_key(s[i].0@),
        ident_map_of(s)[s[i].0@] == s[i].1 as int,
    decreases s.len(),
{
    if i < s.len() - 1 {
        lemma_ident_map_at(s.drop_last(), i);
        assert(s.drop_last()[i] == s[i]);
        assert(s[i].0@ != s.last().0@);
    }
}

proof fn lemma_ident_map_absent(s: Seq<(Vec<u8>, i128)>, key: Seq<u8>)
    requires
        forall|j: int| 0 <= j < s.len() ==> (#[trigger] s[j]).0@ != key,
    ensures
        !ident_map_of(s).contains_key(key),
    decreases s.len(),
{
    if s.len() > 0 {
        lemma_ident_map_absent(s.drop_last(), key);
    }
}

proof fn lemma_ident_map_update(s: Seq<(Vec<u8>, i128)>, i: int, key: Vec<u8>, value: i128)
    requires
        0 <= i < s.len(),
        s[i].0@ == key@,
        forall|j: int, k: int| 0 <= j < k < s.len() ==> (#[trigger] s[j]).0@ != (#[trigger] s[k]).0@,
    ensures
        ident_map_of(s.update(i, (key, value))) == ident_map_of(s).insert(key@, value as int),
    decreases s.len(),
{
    let t = s.update(i, (key, value));
    if i == s.len() - 1 {
        assert(t.drop_last() =~= s.drop_last());
        assert(ident_map_of(t) =~= ident_map_of(s).insert(key@, value as int));
    } else {
        lemma_ident_map_update(s.drop_last(), i, key, value);
        assert(t.drop_last() =~= s.drop_last().update(i, (key, value)));
        assert(s.drop_last()[i] == s[i]);
        assert(s[i].0@ != s.last().0@);
        assert(t.last() == s.last());
        assert(ident_map_of(t) =~= ident_map_of(s).insert(key@, value as int));
    }
}

impl IdentMap {
    /// Unique keys: each identity appears at most once.
    pub closed spec fn inv(&self) -> bool {
        forall|j: int, k: int|
            0 <= j < k < self.entries@.len() ==> (#[trigger] self.entries@[j]).0@ != (
            #[trigger] self.entries@[k]).0@
    }

    /// The empty map.
    pub fn new() -> (r: IdentMap)
        ensures
            r.inv(),
            r@ == Map::<Seq<u8>, int>::empty(),
    {
        IdentMap { entries: Vec::new() }
    }

    /// Look an identity up; absent identities read as the default 0.
    pub fn get_or_zero(&self, key: &Vec<u8>) -> (r: i128)
        requires
            self.inv(),
        ensures
            r as int == if self@.contains_key(key@) {
                self@[key@]
            } else {
                0
            },
    {
        let n = self.entries.len();
        let mut i: usize = 0;
        while i < n
            invariant
                0 <= i <= n,
                self.entries@.len() == n,
                self.inv(),
                forall|j: int| 0 <= j < i ==> (#[trigger] self.entries@[j]).0@ != key@,
            decreases n - i,
        {
            if crate::identity::bytes_eq(&self.entries[i].0, key) {
                proof {
                    lemma_ident_map_at(self.entries@, i as int);
                }
                return self.entries[i].1;
            }
            i += 1;
        }
        proof {
            lemma_ident_map_absent(self.entries@, key@);
        }
        0
    }

    /// Store an integer under an identity, overwriting any previous one.
    pub fn set(&mut self, key: Vec<u8>, value: i128)
        requires
            old(self).inv(),
        ensures
            final(self).inv(),
            final(self)@ == old(self)@.insert(key@, value as int),
    {
        let n = self.entries.len();
        let mut i: usize = 0;
        while i < n
            invariant
                0 <= i <= n,
                self.entries@.len() == n,
                self.inv(),
                self.entries@ == old(self).entries@,
                forall|j: int| 0 <= j < i ==> (#[trigger] self.entries@[j]).0@ != key@,
            decreases n - i,
        {
            if crate::identity::bytes_eq(&self.entries[i].0, &key) {
                proof {
                    lemma_ident_map_update(self.entries@, i as int, key, value);
                }
                self.entries[i] = (key, value);
                return ;
            }
            i += 1;
        }
        proof {
            assert(self.entries@.push((key, value)).drop_last() =~= self.entries@);
        }
        self.entries.push((key, value));
    }
}

/// A map from (owner, operator) identity pairs to booleans (approve-all).
pub struct PairMap {
    entries: Vec<(Vec<u8>, Vec<u8>, bool)>,
}

/// The mathematical map described by an association sequence of pairs.
pub open spec fn pair_map_of(s: Seq<(Vec<u8>, Vec<u8>, bool)>) -> Map<(Seq<u8>, Seq<u8>), bool>
    decreases s.len(),
{
    if s.len() == 0 {
        Map::empty()
    } else {
        pair_map_of(s.drop_last()).insert((s.last().0@, s.last().1@), s.last().2)
    }
}

impl View for PairMap {
    type V = Map<(Seq<u8>, Seq<u8>), bool>;

    closed spec fn view(&self) -> Map<(Seq<u8>, Seq<u8>), bool> {
        pair_map_of(self.entries@)
    }
}

proof fn lemma_pair_map_at(s: Seq<(Vec<u8>, Vec<u8>, bool)>, i: int)
    requires
        0 <= i < s.len(),
        forall|j: int, k: int|
            0 <= j < k < s.len() ==> ((#[trigger] s[j]).0@, s[j].1@) != ((#[trigger] s[k]).0@, s[k].1@),
    ensures
        pair_map_of(s).contains_key((s[i].0@, s[i].1@)),
        pair_map_of(s)[(s[i].0@, s[i].1@)] == s[i].2,
    decreases s.len(),
{
    if i < s.len() - 1 {
        lemma_pair_map_at(s.drop_last(), i);
        assert(s.drop_last()[i] == s[i]);
        assert((s[i].0@, s[i].1@) != (s.last().0@, s.last().1@));
    }
}

proof fn lemma_pair_map_absent(s: Seq<(Vec<u8>, Vec<u8>, bool)>, key: (Seq<u8>, Seq<u8>))
    requires
        forall|j: int| 0 <= j < s.len() ==> ((#[trigger] s[j]).0@, s[j].1@) != key,
    ensures
        !pair_map_of(s).contains_key(key),
    decreases s.len(),
{
    if s.len() > 0 {
        lemma_pair_map_absent(s.drop_last(), key);
    }
}

proof fn lemma_pair_map_update(
    s: Seq<(Vec<u8>, Vec<u8>, bool)>,
    i: int,
    owner: Vec<u8>,
    operator: Vec<u8>,
    value: bool,
)
    requires
        0 <= i < s.len(),
        s[i].0@ == owner@,
        s[i].1@ == operator@,
        forall|j: int, k: int|
            0 <= j < k < s.len() ==> ((#[trigger] s[j]).0@, s[j].1@) != ((#[trigger] s[k]).0@, s[k].1@),
    ensures
        pair_map_of(s.update(i, (owner, operator, value))) == pair_map_of(s).insert(
            (owner@, operator@),
            value,
        ),
    decreases s.len(),
{
    let t = s.update(i, (owner, operator, value));
    if i == s.len() - 1 {
        assert(t.drop_last() =~= s.drop_last());
        assert(pair_map_of(t) =~= pair_map_of(s).insert((owner@, operator@), value));
    } else {
        lemma_pair_map_update(s.drop_last(), i, owner, operator, value);
        assert(t.drop_last() =~= s.drop_last().update(i, (owner, operator, value)));
        assert(s.drop_last()[i] == s[i]);
        assert((s[i].0@, s[i].1@) != (s.last().0@, s.last().1@));
        assert(t.last() == s.last());
        assert(pair_map_of(t) =~= pair_map_of(s).insert((owner@, operator@), value));
    }
}

impl PairMap {
    /// Unique keys: each (owner, operator) pair appears at most once.
    pub closed spec fn inv(&self) -> bool {
        forall|j: int, k: int|
            0 <= j < k < self.entries@.len() ==> ((#[trigger] self.entries@[j]).0@,
            self.entries@[j].1@) != ((#[trigger] self.entries@[k]).0@, self.entries@[k].1@)
    }

    /// The empty map.
    pub fn new() -> (r: PairMap)
        ensures
            r.inv(),
            r@ == Map::<(Seq<u8>, Seq<u8>), bool>::empty(),
    {
        PairMap { entries: Vec::new() }
    }

    /// Look a pair up; absent pairs read as the default `false`.
    pub fn get_or_false(&self, owner: &Vec<u8>, operator: &Vec<u8>) -> (r: bool)
        requires
            self.inv(),
        ensures
            r == if self@.contains_key((owner@, operator@)) {
                self@[(owner@, operator@)]
            } else {
                false
            },
    {
        let n = self.entries.len();
        let mut i: usize = 0;
        while i < n
            invariant
                0 <= i <= n,
                self.entries@.len() == n,
                self.inv(),
                forall|j: int|
                    0 <= j < i ==> ((#[trigger] self.entries@[j]).0@, self.entries@[j].1@) != (
                    owner@,
                    operator@,
                ),
            decreases n - i,
        {
            if crate::identity::bytes_eq(&self.entries[i].0, owner) && crate::identity::bytes_eq(
                &self.entries[i].1,
                operator,
            ) {
                proof {
                    lemma_pair_map_at(self.entries@, i as int);
                }
                return self.entries[i].2;
            }
            i += 1;
        }
        proof {
            lemma_pair_map_absent(self.entries@, (owner@, operator@));
        }
        false
    }

    /// Store a boolean under a pair, overwriting any previous one.
    pub fn set(&mut self, owner: Vec<u8>, operator: Vec<u8>, value: bool)
        requires
            old(self).inv(),
        ensures
            final(self).inv(),
            final(self)@ == old(self)@.insert((owner@, operator@), value),
    {
        let n = self.entries.len();
        let mut i: usize = 0;
        while i < n
            invariant
                0 <= i <= n,
                self.entries@.len() == n,
                self.inv(),
                self.entries@ == old(self).entries@,
                forall|j: int|
                    0 <= j < i ==> ((#[trigger] self.entries@[j]).0@, self.entries@[j].1@) != (
                    owner@,
                    operator@,
                ),
            decreases n - i,
        {
            if crate::identity::bytes_eq(&self.entries[i].0, &owner) && crate::identity::bytes_eq(
                &self.entries[i].1,
                &operator,
            ) {
                proof {
                    lemma_pair_map_update(self.entries@, i as int, owner, operator, value);
                }
                self.entries[i] = (owner, operator, value);
                return ;
            }
            i += 1;
        }
        proof {
            assert(self.entries@.push((owner, operator, value)).drop_last() =~= self.entries@);
        }
        self.entries.push((owner, operator, value));
    }
}

} // verus!
