//! Tables kept in ascending order of a 128-bit key: the search that finds a
//! key or the slot where it belongs, and the facts about order that the
//! table operations rest on.

use vstd::prelude::*;

verus! {

/// A value with a key.
pub trait Keyed {
    spec fn key(&self) -> u128;
}

/// A row whose view carries its key.
pub trait Row: View + Sized where Self::V: Keyed {
    fn id_of(&self) -> (r: u128)
        ensures
            r == self@.key(),
    ;

    /// A copy of this row, field by field.
    fn duplicate(&self) -> (r: Self)
        ensures
            r@ == self@,
    ;
}

/// The views of a sequence of rows.
pub open spec fn row_views<T: View>(rows: Seq<T>) -> Seq<T::V> {
    rows.map_values(|r: T| r@)
}

/// The keys of a table, in table order.
pub open spec fn keys<R: Keyed>(t: Seq<R>) -> Seq<u128> {
    t.map_values(|r: R| r.key())
}

/// Every key is smaller than every key after it.
pub open spec fn ascending(ks: Seq<u128>) -> bool {
    forall|i: int, j: int| 0 <= i < j < ks.len() ==> ks[i] < ks[j]
}

/// Some row of the table has key `k`.
pub open spec fn has_key<R: Keyed>(t: Seq<R>, k: u128) -> bool {
    exists|i: int| 0 <= i < t.len() && #[trigger] t[i].key() == k
}

/// The index of the row with key `k`, where there is one.
pub open spec fn index_of<R: Keyed>(t: Seq<R>, k: u128) -> int {
    choose|i: int| 0 <= i < t.len() && #[trigger] t[i].key() == k
}

/// The row with key `k`, if the table has one.
pub open spec fn find<R: Keyed>(t: Seq<R>, k: u128) -> Option<R> {
    if has_key(t, k) {
        Some(t[index_of(t, k)])
    } else {
        None
    }
}

/// `p` splits the keys into those below `k` and those above it.
pub open spec fn splits_at(ks: Seq<u128>, k: u128, p: int) -> bool {
    &&& 0 <= p <= ks.len()
    &&& forall|i: int| 0 <= i < p ==> #[trigger] ks[i] < k
    &&& forall|i: int| p <= i < ks.len() ==> k < #[trigger] ks[i]
}

/// The place where a row with key `k` belongs in an ascending table.
pub open spec fn slot<R: Keyed>(t: Seq<R>, k: u128) -> int {
    choose|p: int| splits_at(keys(t), k, p)
}

/// The table with `r` put in its place, where its key is not yet taken.
pub open spec fn insert_row<R: Keyed>(t: Seq<R>, r: R) -> Seq<R> {
    if has_key(t, r.key()) {
        t
    } else {
        t.insert(slot(t, r.key()), r)
    }
}

/// The table with the row of key `r.key()` replaced by `r`, where there is one.
pub open spec fn replace_row<R: Keyed>(t: Seq<R>, r: R) -> Seq<R> {
    if has_key(t, r.key()) {
        t.update(index_of(t, r.key()), r)
    } else {
        t
    }
}

/// The table without the row of key `k`.
pub open spec fn remove_row<R: Keyed>(t: Seq<R>, k: u128) -> Seq<R> {
    if has_key(t, k) {
        t.remove(index_of(t, k))
    } else {
        t
    }
}

/// In an ascending table a key names one row only.
pub proof fn lemma_index_unique<R: Keyed>(t: Seq<R>, i: int)
    requires
        ascending(keys(t)),
        0 <= i < t.len(),
    ensures
        has_key(t, t[i].key()),
        index_of(t, t[i].key()) == i,
        find(t, t[i].key()) == Some(t[i]),
{
    let k = t[i].key();
    assert(keys(t)[i] == k);
    let j = index_of(t, k);
    assert(keys(t)[j] == k);
}

/// In an ascending table the place of a new key is the one split point.
pub proof fn lemma_slot_unique<R: Keyed>(t: Seq<R>, k: u128, p: int)
    requires
        ascending(keys(t)),
        splits_at(keys(t), k, p),
    ensures
        slot(t, k) == p,
{
    let ks = keys(t);
    let q = slot(t, k);
    assert(splits_at(ks, k, q));
    if q < p {
        assert(ks[q] < k);
    } else if p < q {
        assert(ks[p] < k);
    }
}

/// A key that an ascending sequence lacks has a split point in it.
pub proof fn lemma_split_exists(ks: Seq<u128>, k: u128)
    requires
        ascending(ks),
        forall|i: int| 0 <= i < ks.len() ==> ks[i] != k,
    ensures
        exists|p: int| splits_at(ks, k, p),
    decreases ks.len(),
{
    if ks.len() == 0 {
        assert(splits_at(ks, k, 0));
    } else {
        let n = ks.len() - 1;
        let front = ks.drop_last();
        assert forall|i: int| 0 <= i < front.len() implies front[i] != k by {
            assert(front[i] == ks[i]);
        }
        lemma_split_exists(front, k);
        let q = choose|q: int| splits_at(front, k, q);
        if ks[n] < k {
            assert forall|i: int| 0 <= i < ks.len() implies #[trigger] ks[i] < k by {
                if i < n {
                    assert(ks[i] < ks[n]);
                }
            }
            assert(splits_at(ks, k, ks.len() as int));
        } else {
            assert(ks[n] != k);
            assert forall|i: int| q <= i < ks.len() implies k < #[trigger] ks[i] by {
                if i < n {
                    assert(front[i] == ks[i]);
                }
            }
            assert forall|i: int| 0 <= i < q implies #[trigger] ks[i] < k by {
                assert(front[i] == ks[i]);
            }
            assert(splits_at(ks, k, q));
        }
    }
}

/// Putting a row in its place keeps the table ascending and adds that row only.
pub proof fn lemma_insert_row<R: Keyed>(t: Seq<R>, r: R)
    requires
        ascending(keys(t)),
        !has_key(t, r.key()),
    ensures
        ascending(keys(insert_row(t, r))),
        insert_row(t, r).len() == t.len() + 1,
        0 <= slot(t, r.key()) < insert_row(t, r).len(),
        insert_row(t, r)[slot(t, r.key())] == r,
        forall|x: R| insert_row(t, r).contains(x) <==> (t.contains(x) || x == r),
        forall|k: u128| has_key(insert_row(t, r), k) <==> (has_key(t, k) || k == r.key()),
{
    let ks = keys(t);
    let p = slot(t, r.key());
    assert forall|i: int| 0 <= i < ks.len() implies ks[i] != r.key() by {
        if ks[i] == r.key() {
            assert(t[i].key() == r.key());
        }
    }
    lemma_split_exists(ks, r.key());
    assert(splits_at(ks, r.key(), p));
    let u = t.insert(p, r);
    assert(keys(u) =~= ks.insert(p, r.key()));
    assert forall|k: u128| has_key(u, k) <==> (has_key(t, k) || k == r.key()) by {
        if has_key(u, k) {
            let i = choose|i: int| 0 <= i < u.len() && #[trigger] u[i].key() == k;
            if i < p {
                assert(t[i] == u[i]);
            } else if i > p {
                assert(t[i - 1] == u[i]);
            }
        }
        if has_key(t, k) {
            let i = choose|i: int| 0 <= i < t.len() && #[trigger] t[i].key() == k;
            if i < p {
                assert(u[i] == t[i]);
            } else {
                assert(u[i + 1] == t[i]);
            }
        }
        if k == r.key() {
            assert(u[p] == r);
        }
    }
    assert forall|x: R| u.contains(x) <==> (t.contains(x) || x == r) by {
        if u.contains(x) {
            let i = choose|i: int| 0 <= i < u.len() && u[i] == x;
            if i < p {
                assert(t[i] == u[i]);
            } else if i > p {
                assert(t[i - 1] == u[i]);
            }
        }
        if t.contains(x) {
            let i = choose|i: int| 0 <= i < t.len() && t[i] == x;
            if i < p {
                assert(u[i] == t[i]);
            } else {
                assert(u[i + 1] == t[i]);
            }
        }
        if x == r {
            assert(u[p] == r);
        }
    }
}

/// Replacing a row by one of the same key keeps the keys as they were.
pub proof fn lemma_replace_row<R: Keyed>(t: Seq<R>, r: R)
    ensures
        keys(replace_row(t, r)) == keys(t),
        replace_row(t, r).len() == t.len(),
        has_key(t, r.key()) ==> replace_row(t, r)[index_of(t, r.key())] == r,
        forall|i: int| 0 <= i < t.len() && t[i].key() != r.key() ==> replace_row(t, r)[i] == t[i],
        forall|k: u128| has_key(replace_row(t, r), k) <==> has_key(t, k),
{
    if has_key(t, r.key()) {
        let j = index_of(t, r.key());
        let u = t.update(j, r);
        assert(keys(u) =~= keys(t));
        assert forall|k: u128| has_key(u, k) <==> has_key(t, k) by {
            if has_key(u, k) {
                let i = choose|i: int| 0 <= i < u.len() && #[trigger] u[i].key() == k;
                assert(keys(u)[i] == keys(t)[i]);
            }
            if has_key(t, k) {
                let i = choose|i: int| 0 <= i < t.len() && #[trigger] t[i].key() == k;
                assert(keys(u)[i] == keys(t)[i]);
            }
        }
    }
}

/// Removing a row keeps the table ascending and drops that key only.
pub proof fn lemma_remove_row<R: Keyed>(t: Seq<R>, k: u128)
    requires
        ascending(keys(t)),
    ensures
        ascending(keys(remove_row(t, k))),
        !has_key(remove_row(t, k), k),
        has_key(t, k) ==> remove_row(t, k).len() == t.len() - 1,
        forall|x: R| remove_row(t, k).contains(x) <==> (t.contains(x) && x.key() != k),
        forall|j: u128| has_key(remove_row(t, k), j) <==> (has_key(t, j) && j != k),
{
    if has_key(t, k) {
        let p = index_of(t, k);
        let u = t.remove(p);
        assert(keys(u) =~= keys(t).remove(p));
        assert forall|x: R| u.contains(x) <==> (t.contains(x) && x.key() != k) by {
            if u.contains(x) {
                let i = choose|i: int| 0 <= i < u.len() && u[i] == x;
                if i < p {
                    assert(t[i] == u[i]);
                    assert(keys(t)[i] < keys(t)[p]);
                } else {
                    assert(t[i + 1] == u[i]);
                    assert(keys(t)[p] < keys(t)[i + 1]);
                }
            }
            if t.contains(x) && x.key() != k {
                let i = choose|i: int| 0 <= i < t.len() && t[i] == x;
                if i < p {
                    assert(u[i] == t[i]);
                } else {
                    assert(i != p);
                    assert(u[i - 1] == t[i]);
                }
            }
        }
        assert forall|j: u128| has_key(u, j) <==> (has_key(t, j) && j != k) by {
            if has_key(u, j) {
                let i = choose|i: int| 0 <= i < u.len() && #[trigger] u[i].key() == j;
                assert(u.contains(u[i]));
            }
            if has_key(t, j) && j != k {
                let i = choose|i: int| 0 <= i < t.len() && #[trigger] t[i].key() == j;
                assert(t.contains(t[i]));
                let m = choose|m: int| 0 <= m < u.len() && u[m] == t[i];
                assert(u[m].key() == j);
            }
        }
    } else {
        assert forall|x: R| t.contains(x) implies x.key() != k by {
            let i = choose|i: int| 0 <= i < t.len() && t[i] == x;
            assert(t[i].key() == x.key());
        }
    }
}

/// A row put in its place is found again by its key.
pub proof fn lemma_find_inserted<R: Keyed>(t: Seq<R>, r: R)
    requires
        ascending(keys(t)),
        !has_key(t, r.key()),
    ensures
        find(insert_row(t, r), r.key()) == Some(r),
{
    lemma_insert_row(t, r);
    lemma_index_unique(insert_row(t, r), slot(t, r.key()));
}

/// A row that replaced another is what its key finds.
pub proof fn lemma_find_replaced<R: Keyed>(t: Seq<R>, r: R)
    requires
        ascending(keys(t)),
        has_key(t, r.key()),
    ensures
        ascending(keys(replace_row(t, r))),
        find(replace_row(t, r), r.key()) == Some(r),
        forall|i: int|
            0 <= i < replace_row(t, r).len() && #[trigger] replace_row(t, r)[i].key() == r.key()
                ==> replace_row(t, r)[i] == r,
{
    lemma_replace_row(t, r);
    let u = replace_row(t, r);
    let j = index_of(t, r.key());
    lemma_index_unique(u, j);
    assert forall|i: int| 0 <= i < u.len() && #[trigger] u[i].key() == r.key() implies u[i] == r by {
        lemma_index_unique(u, i);
    }
}

/// Keeping only some rows of an ascending table leaves it ascending.
pub proof fn lemma_filter_ascending<R: Keyed>(t: Seq<R>, p: spec_fn(R) -> bool)
    requires
        ascending(keys(t)),
    ensures
        ascending(keys(t.filter(p))),
    decreases t.len(),
{
    if t.len() > 0 {
        let front = t.drop_last();
        let last = t.last();
        assert(keys(front) =~= keys(t).drop_last());
        lemma_filter_ascending(front, p);
        assert(front.push(last) =~= t);
        front.lemma_filter_push(last, p);
        if p(last) {
            let sub = front.filter(p);
            assert(t.filter(p) == sub.push(last));
            assert forall|i: int| 0 <= i < sub.len() implies #[trigger] sub[i].key() < last.key() by {
                assert(sub.contains(sub[i]));
                front.lemma_filter_contains_rev(p, sub[i]);
                let j = choose|j: int| 0 <= j < front.len() && front[j] == sub[i];
                assert(keys(t)[j] < keys(t)[t.len() - 1]);
            }
            let ks = keys(sub.push(last));
            assert forall|i: int, j: int| 0 <= i < j < ks.len() implies ks[i] < ks[j] by {
                assert(ks[i] == sub.push(last)[i].key());
                assert(ks[j] == sub.push(last)[j].key());
                assert(keys(sub)[i] == sub[i].key());
                if j < sub.len() {
                    assert(keys(sub)[j] == sub[j].key());
                }
            }
        }
    }
}

/// Searches an ascending table for key `k`: the index of its row, or else the
/// place where a row with that key belongs.
pub fn locate<T: Row>(rows: &Vec<T>, k: u128) -> (r: Result<usize, usize>)
    where T::V: Keyed
    requires
        ascending(keys(row_views(rows@))),
    ensures
        match r {
            Ok(i) => i < rows.len() && row_views(rows@)[i as int].key() == k
                && index_of(row_views(rows@), k) == i && has_key(row_views(rows@), k),
            Err(p) => !has_key(row_views(rows@), k) && p <= rows.len()
                && p == slot(row_views(rows@), k) && splits_at(keys(row_views(rows@)), k, p as int),
        },
{
    let ghost t = row_views(rows@);
    let ghost ks = keys(t);
    let mut i: usize = 0;
    while i < rows.len()
        invariant
            0 <= i <= rows.len(),
            t == row_views(rows@),
            ks == keys(t),
            ascending(ks),
            forall|j: int| 0 <= j < i ==> #[trigger] ks[j] < k,
        decreases rows.len() - i,
    {
        let x = rows[i].id_of();
        assert(ks[i as int] == x);
        if x == k {
            proof {
                lemma_index_unique(t, i as int);
            }
            return Ok(i);
        }
        if k < x {
            assert forall|j: int| i <= j < ks.len() implies k < #[trigger] ks[j] by {
                if j > i {
                    assert(ks[i as int] < ks[j]);
                }
            }
            proof {
                assert(splits_at(ks, k, i as int));
                lemma_slot_unique(t, k, i as int);
                assert(!has_key(t, k)) by {
                    if has_key(t, k) {
                        let j = choose|j: int| 0 <= j < t.len() && #[trigger] t[j].key() == k;
                        assert(ks[j] == k);
                    }
                }
            }
            return Err(i);
        }
        i = i + 1;
    }
    proof {
        assert(splits_at(ks, k, i as int));
        lemma_slot_unique(t, k, i as int);
        assert(!has_key(t, k)) by {
            if has_key(t, k) {
                let j = choose|j: int| 0 <= j < t.len() && #[trigger] t[j].key() == k;
                assert(ks[j] == k);
            }
        }
    }
    Err(i)
}

/// Puts `r` in its place in an ascending table, unless its key is taken.
pub fn insert_into<T: Row>(rows: &mut Vec<T>, r: T) -> (inserted: bool)
    where T::V: Keyed
    requires
        ascending(keys(row_views(old(rows)@))),
    ensures
        inserted == !has_key(row_views(old(rows)@), r@.key()),
        row_views(final(rows)@) == insert_row(row_views(old(rows)@), r@),
        final(rows)@.len() == old(rows)@.len() + (if inserted {
            1int
        } else {
            0int
        }),
        ascending(keys(row_views(final(rows)@))),
        forall|k: u128|
            has_key(row_views(final(rows)@), k) <==> (has_key(row_views(old(rows)@), k) || (
            inserted && k == r@.key())),
{
    let ghost before = row_views(rows@);
    let k = r.id_of();
    match locate(rows, k) {
        Ok(_) => false,
        Err(p) => {
            let ghost rv = r@;
            proof {
                lemma_insert_row(before, rv);
            }
            rows.insert(p, r);
            assert(row_views(rows@) =~= before.insert(p as int, rv));
            true
        },
    }
}

/// Replaces the row with key `r@.key()` by `r`, where there is one.
pub fn replace_in<T: Row>(rows: &mut Vec<T>, r: T) -> (found: bool)
    where T::V: Keyed
    requires
        ascending(keys(row_views(old(rows)@))),
    ensures
        found == has_key(row_views(old(rows)@), r@.key()),
        row_views(final(rows)@) == replace_row(row_views(old(rows)@), r@),
        keys(row_views(final(rows)@)) == keys(row_views(old(rows)@)),
        forall|k: u128| has_key(row_views(final(rows)@), k) <==> has_key(row_views(old(rows)@), k),
{
    let ghost before = row_views(rows@);
    let ghost rv = r@;
    proof {
        lemma_replace_row(before, rv);
    }
    let k = r.id_of();
    match locate(rows, k) {
        Ok(i) => {
            rows.set(i, r);
            assert(row_views(rows@) =~= before.update(i as int, rv));
            true
        },
        Err(_) => false,
    }
}

/// Removes the row with key `k`, where there is one.
pub fn remove_from<T: Row>(rows: &mut Vec<T>, k: u128) -> (found: bool)
    where T::V: Keyed
    requires
        ascending(keys(row_views(old(rows)@))),
    ensures
        found == has_key(row_views(old(rows)@), k),
        row_views(final(rows)@) == remove_row(row_views(old(rows)@), k),
        ascending(keys(row_views(final(rows)@))),
        forall|j: u128|
            has_key(row_views(final(rows)@), j) <==> (has_key(row_views(old(rows)@), j) && j != k),
{
    let ghost before = row_views(rows@);
    proof {
        lemma_remove_row(before, k);
    }
    match locate(rows, k) {
        Ok(i) => {
            rows.remove(i);
            assert(row_views(rows@) =~= before.remove(i as int));
            true
        },
        Err(_) => false,
    }
}

/// A copy of every row, in order.
pub fn copy_rows<T: Row>(rows: &Vec<T>) -> (r: Vec<T>)
    where T::V: Keyed
    ensures
        row_views(r@) == row_views(rows@),
{
    let mut out: Vec<T> = Vec::new();
    let mut i: usize = 0;
    while i < rows.len()
        invariant
            0 <= i <= rows.len(),
            row_views(out@) == row_views(rows@).take(i as int),
        decreases rows.len() - i,
    {
        let row = rows[i].duplicate();
        let ghost prev = out@;
        out.push(row);
        assert(row_views(out@) =~= row_views(prev).push(row@));
        assert(row_views(out@) =~= row_views(rows@).take(i as int + 1));
        i = i + 1;
    }
    assert(row_views(rows@).take(i as int) =~= row_views(rows@));
    out
}

} // verus!
