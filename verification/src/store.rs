//! The alias sub-domain of the persistent store.
//!
//! The store keeps local alias records: entries mapping a human-readable
//! alias string to the room identifier it resolves to. The one
//! administrative operation defined on it removes, in a single batch, every
//! record that resolves to a given room.

use vstd::prelude::*;
use crate::ids::RoomId;

verus! {

/// One local alias record: `alias` resolves to the room named by `room`.
pub struct AliasRecord {
    pub alias: String,
    pub room: RoomId,
}

impl View for AliasRecord {
    type V = (Seq<char>, Seq<char>);

    open spec fn view(&self) -> (Seq<char>, Seq<char>) {
        (self.alias@, self.room@)
    }
}

impl AliasRecord {
    /// An owned copy of the record.
    pub fn duplicate(&self) -> (r: AliasRecord)
        ensures
            r == *self,
    {
        AliasRecord { alias: self.alias.clone(), room: self.room.duplicate() }
    }
}

/// The records left after purging the aliases of room `r`: every record
/// whose target is not `r`, in their original order.
pub open spec fn purged(s: Seq<(Seq<char>, Seq<char>)>, r: Seq<char>) -> Seq<
    (Seq<char>, Seq<char>),
>
    decreases s.len(),
{
    if s.len() == 0 {
        Seq::empty()
    } else {
        let rest = purged(s.drop_last(), r);
        if s.last().1 == r {
            rest
        } else {
            rest.push(s.last())
        }
    }
}

/// The records that resolve to room `r`, in their original order.
pub open spec fn resolving(s: Seq<(Seq<char>, Seq<char>)>, r: Seq<char>) -> Seq<
    (Seq<char>, Seq<char>),
>
    decreases s.len(),
{
    if s.len() == 0 {
        Seq::empty()
    } else {
        let rest = resolving(s.drop_last(), r);
        if s.last().1 == r {
            rest.push(s.last())
        } else {
            rest
        }
    }
}

/// Whether some record of `s` carries the alias `a`.
pub open spec fn has_alias(s: Seq<(Seq<char>, Seq<char>)>, a: Seq<char>) -> bool {
    exists|i: int| 0 <= i < s.len() && s[i].0 == a
}

/// Aliases are keys: no two records carry the same alias.
pub open spec fn unique_aliases(s: Seq<(Seq<char>, Seq<char>)>) -> bool {
    forall|i: int, j: int| 0 <= i < j < s.len() ==> s[i].0 != s[j].0
}

/// The alias sub-store: the set of local alias records.
pub struct AliasStore {
    entries: Vec<AliasRecord>,
}

impl View for AliasStore {
    type V = Seq<(Seq<char>, Seq<char>)>;

    closed spec fn view(&self) -> Seq<(Seq<char>, Seq<char>)> {
        Seq::new(self.entries@.len(), |i: int| self.entries@[i]@)
    }
}

impl AliasStore {
    /// Structural validity: aliases are unique keys.
    pub open spec fn wf(&self) -> bool {
        unique_aliases(self@)
    }

    /// A new, empty, structurally valid alias store.
    pub fn new() -> (s: AliasStore)
        ensures
            s@ == Seq::<(Seq<char>, Seq<char>)>::empty(),
            s.wf(),
    {
        let s = AliasStore { entries: Vec::new() };
        proof {
            assert(s@ =~= Seq::<(Seq<char>, Seq<char>)>::empty());
        }
        s
    }

    /// How many alias records the store holds.
    pub fn len(&self) -> (n: usize)
        ensures
            n == self@.len(),
    {
        self.entries.len()
    }

    /// Records the alias as resolving to the room, unless a record with the
    /// same alias is already present; reports whether it was added.
    pub fn insert_alias(&mut self, alias: String, room: RoomId) -> (added: bool)
        ensures
            added == !has_alias(old(self)@, alias@),
            added ==> final(self)@ == old(self)@.push((alias@, room@)),
            !added ==> final(self)@ == old(self)@,
            old(self).wf() ==> final(self).wf(),
    {
        if self.holds_alias(&alias) {
            false
        } else {
            let ghost pre = self@;
            self.entries.push(AliasRecord { alias, room });
            proof {
                assert(self@ =~= pre.push((self.entries@.last().alias@,
                    self.entries@.last().room@)));
            }
            true
        }
    }

    /// Whether some record carries this alias.
    pub fn holds_alias(&self, alias: &String) -> (r: bool)
        ensures
            r == has_alias(self@, alias@),
    {
        let n = self.entries.len();
        let mut i: usize = 0;
        while i < n
            invariant
                n == self.entries.len(),
                0 <= i <= n,
                forall|k: int| 0 <= k < i ==> self@[k].0 != alias@,
            decreases n - i,
        {
            if self.entries[i].alias == *alias {
                assert(self@[i as int].0 == alias@);
                return true;
            }
            i = i + 1;
        }
        false
    }

    /// The room the alias resolves to, if any record carries it.
    pub fn resolve(&self, alias: &String) -> (r: Option<RoomId>)
        ensures
            match r {
                Some(room) => exists|i: int|
                    0 <= i < self@.len() && self@[i] == (alias@, room@),
                None => !has_alias(self@, alias@),
            },
    {
        let n = self.entries.len();
        let mut i: usize = 0;
        while i < n
            invariant
                n == self.entries.len(),
                0 <= i <= n,
                forall|k: int| 0 <= k < i ==> self@[k].0 != alias@,
            decreases n - i,
        {
            if self.entries[i].alias == *alias {
                let room = self.entries[i].room.duplicate();
                assert(self@[i as int] == (alias@, room@));
                return Some(room);
            }
            i = i + 1;
        }
        None
    }

    /// Removes, in one batch, every alias record that resolves to the given
    /// room, and reports how many were removed. Records of other rooms are
    /// kept, in their order; a room with no aliases sees no change and a
    /// count of zero.
    pub fn remove_all_aliases(&mut self, room: &RoomId) -> (removed: usize)
        ensures
            final(self)@ == purged(old(self)@, room@),
            removed == resolving(old(self)@, room@).len(),
            forall|i: int| 0 <= i < final(self)@.len() ==> final(self)@[i].1 != room@,
            old(self).wf() ==> final(self).wf(),
    {
        let ghost whole = self@;
        let n = self.entries.len();
        let mut kept: Vec<AliasRecord> = Vec::new();
        let mut removed: usize = 0;
        let mut i: usize = 0;
        while i < n
            invariant
                n == self.entries.len(),
                whole == self@,
                0 <= i <= n,
                removed <= i,
                Seq::new(kept@.len(), |k: int| kept@[k]@) == purged(whole.take(i as int), room@),
                removed == resolving(whole.take(i as int), room@).len(),
            decreases n - i,
        {
            let ghost pre = whole.take(i as int);
            proof {
                assert(whole.take(i + 1) =~= pre.push(whole[i as int]));
                assert(pre.push(whole[i as int]).drop_last() =~= pre);
            }
            if self.entries[i].room.equals(room) {
                removed = removed + 1;
            } else {
                let ghost kept_pre = Seq::new(kept@.len(), |k: int| kept@[k]@);
                kept.push(self.entries[i].duplicate());
                proof {
                    assert(Seq::new(kept@.len(), |k: int| kept@[k]@) =~= kept_pre.push(
                        whole[i as int]));
                }
            }
            i = i + 1;
        }
        proof {
            assert(whole.take(n as int) =~= whole);
        }
        self.entries = kept;
        proof {
            lemma_purged_clean(whole, room@);
            if old(self).wf() {
                lemma_purged_unique(whole, room@);
            }
        }
        removed
    }
}

/// No record left by a purge resolves to the purged room.
pub proof fn lemma_purged_clean(s: Seq<(Seq<char>, Seq<char>)>, r: Seq<char>)
    ensures
        forall|i: int| 0 <= i < purged(s, r).len() ==> purged(s, r)[i].1 != r,
    decreases s.len(),
{
    if s.len() > 0 {
        let dl = s.drop_last();
        let rest = purged(dl, r);
        lemma_purged_clean(dl, r);
        assert forall|i: int| 0 <= i < purged(s, r).len() implies purged(s, r)[i].1 != r by {
            if i < rest.len() {
                assert(purged(s, r)[i] == rest[i]);
            } else {
                assert(purged(s, r)[i] == s.last());
            }
        }
    }
}

/// Every record left by a purge stood in the store before it.
pub proof fn lemma_purged_contained(s: Seq<(Seq<char>, Seq<char>)>, r: Seq<char>)
    ensures
        forall|i: int| 0 <= i < purged(s, r).len() ==> s.contains(#[trigger] purged(s, r)[i]),
    decreases s.len(),
{
    if s.len() > 0 {
        let dl = s.drop_last();
        let rest = purged(dl, r);
        lemma_purged_contained(dl, r);
        assert forall|i: int| 0 <= i < purged(s, r).len() implies s.contains(
            #[trigger] purged(s, r)[i],
        ) by {
            if i < rest.len() {
                assert(purged(s, r)[i] == rest[i]);
                assert(dl.contains(rest[i]));
                let k = choose|k: int| 0 <= k < dl.len() && dl[k] == rest[i];
                assert(dl[k] == s.subrange(0, s.len() - 1)[k]);
                assert(s[k] == purged(s, r)[i]);
            } else {
                assert(purged(s, r)[i] == s.last());
                assert(s[s.len() - 1] == purged(s, r)[i]);
            }
        }
    }
}

/// Non-existence tolerance: purging a room with no alias records changes
/// nothing and removes zero records.
pub proof fn lemma_purge_vacuous(s: Seq<(Seq<char>, Seq<char>)>, r: Seq<char>)
    requires
        forall|i: int| 0 <= i < s.len() ==> s[i].1 != r,
    ensures
        purged(s, r) == s,
        resolving(s, r).len() == 0,
    decreases s.len(),
{
    if s.len() > 0 {
        let dl = s.drop_last();
        assert forall|i: int| 0 <= i < dl.len() implies dl[i].1 != r by {
            assert(dl[i] == s.subrange(0, s.len() - 1)[i]);
            assert(s[i].1 != r);
        }
        lemma_purge_vacuous(dl, r);
        assert(s[s.len() - 1].1 != r);
        assert(purged(s, r) =~= s);
    }
}

/// Idempotence: a purge leaves no alias of the room behind, so purging the
/// same room again changes nothing and removes zero records.
pub proof fn lemma_purge_idempotent(s: Seq<(Seq<char>, Seq<char>)>, r: Seq<char>)
    ensures
        purged(purged(s, r), r) == purged(s, r),
        resolving(purged(s, r), r).len() == 0,
{
    lemma_purged_clean(s, r);
    lemma_purge_vacuous(purged(s, r), r);
}

/// Scope isolation: purging one room's aliases never removes, adds, or
/// modifies a record of any other room — the records resolving to the other
/// room afterwards are exactly those before, in their order.
pub proof fn lemma_purge_isolated(s: Seq<(Seq<char>, Seq<char>)>, r1: Seq<char>, r2: Seq<char>)
    requires
        r1 != r2,
    ensures
        resolving(purged(s, r1), r2) == resolving(s, r2),
    decreases s.len(),
{
    if s.len() > 0 {
        let dl = s.drop_last();
        lemma_purge_isolated(dl, r1, r2);
        if s.last().1 == r1 {
            assert(purged(s, r1) == purged(dl, r1));
            assert(s.last().1 != r2);
            assert(resolving(s, r2) == resolving(dl, r2));
        } else {
            let p = purged(dl, r1);
            assert(purged(s, r1) == p.push(s.last()));
            assert(p.push(s.last()).drop_last() =~= p);
            assert(p.push(s.last()).last() == s.last());
            if s.last().1 == r2 {
                assert(resolving(p.push(s.last()), r2) == resolving(p, r2).push(s.last()));
                assert(resolving(s, r2) == resolving(dl, r2).push(s.last()));
            } else {
                assert(resolving(p.push(s.last()), r2) == resolving(p, r2));
                assert(resolving(s, r2) == resolving(dl, r2));
            }
        }
    }
}

/// A purge keeps aliases unique: the store's structural validity survives it.
pub proof fn lemma_purged_unique(s: Seq<(Seq<char>, Seq<char>)>, r: Seq<char>)
    requires
        unique_aliases(s),
    ensures
        unique_aliases(purged(s, r)),
    decreases s.len(),
{
    if s.len() > 0 {
        let dl = s.drop_last();
        assert forall|i: int, j: int| 0 <= i < j < dl.len() implies dl[i].0 != dl[j].0 by {
            assert(dl[i] == s.subrange(0, s.len() - 1)[i]);
            assert(dl[j] == s.subrange(0, s.len() - 1)[j]);
            assert(s[i].0 != s[j].0);
        }
        lemma_purged_unique(dl, r);
        if s.last().1 != r {
            let rest = purged(dl, r);
            lemma_purged_contained(dl, r);
            assert forall|i: int, j: int|
                0 <= i < j < purged(s, r).len() implies purged(s, r)[i].0 != purged(
                s,
                r,
            )[j].0 by {
                if j == purged(s, r).len() - 1 {
                    assert(purged(s, r)[i] == rest[i]);
                    assert(dl.contains(rest[i]));
                    let k = choose|k: int| 0 <= k < dl.len() && dl[k] == rest[i];
                    assert(dl[k] == s.subrange(0, s.len() - 1)[k]);
                    assert(s[k] == rest[i]);
                    assert(s[k].0 != s[s.len() - 1].0);
                    assert(purged(s, r)[j] == s.last());
                } else {
                    assert(purged(s, r)[i] == rest[i]);
                    assert(purged(s, r)[j] == rest[j]);
                }
            }
        }
    }
}

}
