//! Keys and references between tables, stated once for every kind of row.
//!
//! A table is a sequence of rows. A key is a function from a row to a
//! value; a table is keyed by it where no two rows share that value. A
//! table refers to another through a key of each where every row of the
//! first names a row of the second.

use vstd::prelude::*;

verus! {

/// No two rows of `rows` have the same `key`.
pub open spec fn unique_by<T, K>(rows: Seq<T>, key: spec_fn(T) -> K) -> bool {
    forall|i: int, j: int|
        0 <= i < rows.len() && 0 <= j < rows.len() && key(#[trigger] rows[i]) == key(
            #[trigger] rows[j],
        ) ==> i == j
}

/// Some row of `rows` has the key `k`.
pub open spec fn has_key<T, K>(rows: Seq<T>, key: spec_fn(T) -> K, k: K) -> bool {
    exists|i: int| 0 <= i < rows.len() && key(#[trigger] rows[i]) == k
}

/// The place of a row with the key `k`, where there is one.
pub open spec fn index_by<T, K>(rows: Seq<T>, key: spec_fn(T) -> K, k: K) -> int {
    choose|i: int| 0 <= i < rows.len() && key(#[trigger] rows[i]) == k
}

/// The row with the key `k`, where there is one.
pub open spec fn row_by<T, K>(rows: Seq<T>, key: spec_fn(T) -> K, k: K) -> T {
    rows[index_by(rows, key, k)]
}

/// The row with the key `k`, if there is one.
pub open spec fn find_by<T, K>(rows: Seq<T>, key: spec_fn(T) -> K, k: K) -> Option<T> {
    if has_key(rows, key, k) {
        Some(row_by(rows, key, k))
    } else {
        None
    }
}

/// Every row of `children` names, by `fk`, a row of `parents` with that
/// value as its `pk`.
pub open spec fn refers<C, P, K>(
    children: Seq<C>,
    fk: spec_fn(C) -> K,
    parents: Seq<P>,
    pk: spec_fn(P) -> K,
) -> bool {
    forall|i: int|
        0 <= i < children.len() ==> has_key(parents, pk, fk(#[trigger] children[i]))
}

/// Every row of `rows` satisfies `p`.
pub open spec fn all<T>(rows: Seq<T>, p: spec_fn(T) -> bool) -> bool {
    forall|i: int| 0 <= i < rows.len() ==> p(#[trigger] rows[i])
}

/// The place of a row is the place that `index_by` gives for its key, in a
/// table keyed by it.
pub proof fn lemma_index_by<T, K>(rows: Seq<T>, key: spec_fn(T) -> K, i: int)
    requires
        unique_by(rows, key),
        0 <= i < rows.len(),
    ensures
        has_key(rows, key, key(rows[i])),
        index_by(rows, key, key(rows[i])) == i,
        row_by(rows, key, key(rows[i])) == rows[i],
{
    let k = key(rows[i]);
    let j = index_by(rows, key, k);
    assert(0 <= j < rows.len() && key(rows[j]) == k);
}

/// What `index_by` gives for a key that some row has is the place of a row
/// with that key.
pub proof fn lemma_index_by_has<T, K>(rows: Seq<T>, key: spec_fn(T) -> K, k: K)
    requires
        has_key(rows, key, k),
    ensures
        0 <= index_by(rows, key, k) < rows.len(),
        key(row_by(rows, key, k)) == k,
{
}

/// Each row of a filtered table is a row of the table that satisfies the
/// filter; the result is its place in the table.
pub proof fn lemma_filter_source<T>(rows: Seq<T>, p: spec_fn(T) -> bool, i: int) -> (j: int)
    requires
        0 <= i < rows.filter(p).len(),
    ensures
        0 <= j < rows.len(),
        rows[j] == rows.filter(p)[i],
        p(rows[j]),
    decreases rows.len(),
{
    reveal(Seq::filter);
    let rest = rows.drop_last();
    if p(rows.last()) && i == rest.filter(p).len() {
        rows.len() - 1
    } else {
        lemma_filter_source(rest, p, i)
    }
}

/// Each row of a table that satisfies the filter is a row of the filtered
/// table; the result is its place there.
pub proof fn lemma_filter_target<T>(rows: Seq<T>, p: spec_fn(T) -> bool, j: int) -> (i: int)
    requires
        0 <= j < rows.len(),
        p(rows[j]),
    ensures
        0 <= i < rows.filter(p).len(),
        rows.filter(p)[i] == rows[j],
    decreases rows.len(),
{
    reveal(Seq::filter);
    let rest = rows.drop_last();
    if j == rows.len() - 1 {
        rest.filter(p).len() as int
    } else {
        lemma_filter_target(rest, p, j)
    }
}

/// A filter that every row satisfies changes nothing.
pub proof fn lemma_filter_all<T>(rows: Seq<T>, p: spec_fn(T) -> bool)
    requires
        all(rows, p),
    ensures
        rows.filter(p) == rows,
    decreases rows.len(),
{
    reveal(Seq::filter);
    if rows.len() > 0 {
        let rest = rows.drop_last();
        assert forall|i: int| 0 <= i < rest.len() implies p(#[trigger] rest[i]) by {
            assert(rest[i] == rows[i]);
        }
        lemma_filter_all(rest, p);
        assert(rest.push(rows.last()) =~= rows);
    }
}

/// A filter that no row satisfies leaves nothing.
pub proof fn lemma_filter_none<T>(rows: Seq<T>, p: spec_fn(T) -> bool)
    requires
        forall|i: int| 0 <= i < rows.len() ==> !p(#[trigger] rows[i]),
    ensures
        rows.filter(p).len() == 0,
{
    if rows.filter(p).len() > 0 {
        let j = lemma_filter_source(rows, p, 0);
    }
}

/// A filtered table is keyed by what the table is keyed by.
pub proof fn lemma_unique_filter<T, K>(rows: Seq<T>, key: spec_fn(T) -> K, p: spec_fn(T) -> bool)
    requires
        unique_by(rows, key),
    ensures
        unique_by(rows.filter(p), key),
    decreases rows.len(),
{
    reveal(Seq::filter);
    if rows.len() > 0 {
        let rest = rows.drop_last();
        let last = rows.last();
        assert(unique_by(rest, key)) by {
            assert forall|i: int, j: int|
                0 <= i < rest.len() && 0 <= j < rest.len() && key(#[trigger] rest[i]) == key(
                    #[trigger] rest[j],
                ) implies i == j by {
                assert(rest[i] == rows[i] && rest[j] == rows[j]);
            }
        }
        lemma_unique_filter(rest, key, p);
        if p(last) {
            let kept = rest.filter(p);
            assert forall|i: int| 0 <= i < kept.len() implies key(#[trigger] kept[i]) != key(
                last,
            ) by {
                let j = lemma_filter_source(rest, p, i);
                assert(rest[j] == rows[j]);
                assert(rows[rows.len() - 1] == last);
            }
            lemma_unique_push(kept, key, last);
        }
    }
}

/// A table keyed by `key` stays so with one more row whose key is new.
pub proof fn lemma_unique_push<T, K>(rows: Seq<T>, key: spec_fn(T) -> K, row: T)
    requires
        unique_by(rows, key),
        !has_key(rows, key, key(row)),
    ensures
        unique_by(rows.push(row), key),
{
    let after = rows.push(row);
    assert forall|i: int, j: int|
        0 <= i < after.len() && 0 <= j < after.len() && key(#[trigger] after[i]) == key(
            #[trigger] after[j],
        ) implies i == j by {
        if i < rows.len() {
            assert(after[i] == rows[i]);
        }
        if j < rows.len() {
            assert(after[j] == rows[j]);
        }
    }
}

/// A table keyed by `key` stays so when one row is replaced by a row with
/// the same key.
pub proof fn lemma_unique_update<T, K>(rows: Seq<T>, key: spec_fn(T) -> K, at: int, row: T)
    requires
        unique_by(rows, key),
        0 <= at < rows.len(),
        key(row) == key(rows[at]),
    ensures
        unique_by(rows.update(at, row), key),
{
    let after = rows.update(at, row);
    assert forall|i: int, j: int|
        0 <= i < after.len() && 0 <= j < after.len() && key(#[trigger] after[i]) == key(
            #[trigger] after[j],
        ) implies i == j by {
        assert(key(after[i]) == key(rows[i]));
        assert(key(after[j]) == key(rows[j]));
    }
}

/// A key that a table has, it still has with one more row; and it has the
/// key of that row.
pub proof fn lemma_has_key_push<T, K>(rows: Seq<T>, key: spec_fn(T) -> K, row: T, k: K)
    requires
        has_key(rows, key, k) || k == key(row),
    ensures
        has_key(rows.push(row), key, k),
{
    let after = rows.push(row);
    if has_key(rows, key, k) {
        let i = index_by(rows, key, k);
        assert(after[i] == rows[i]);
    } else {
        assert(after[rows.len() as int] == row);
    }
}

/// A table has the same keys after one row is replaced by a row with the
/// same key.
pub proof fn lemma_has_key_update<T, K>(
    rows: Seq<T>,
    key: spec_fn(T) -> K,
    at: int,
    row: T,
    k: K,
)
    requires
        0 <= at < rows.len(),
        key(row) == key(rows[at]),
    ensures
        has_key(rows.update(at, row), key, k) == has_key(rows, key, k),
{
    let after = rows.update(at, row);
    if has_key(rows, key, k) {
        let i = index_by(rows, key, k);
        assert(key(after[i]) == k);
    }
    if has_key(after, key, k) {
        let i = index_by(after, key, k);
        assert(key(rows[i]) == k);
    }
}

/// A filtered table has a key exactly where a row of the table with that
/// key satisfies the filter.
pub proof fn lemma_has_key_filter<T, K>(
    rows: Seq<T>,
    key: spec_fn(T) -> K,
    p: spec_fn(T) -> bool,
    k: K,
)
    ensures
        has_key(rows.filter(p), key, k) == (exists|i: int|
            0 <= i < rows.len() && key(#[trigger] rows[i]) == k && p(rows[i])),
{
    let kept = rows.filter(p);
    if has_key(kept, key, k) {
        let i = index_by(kept, key, k);
        let j = lemma_filter_source(rows, p, i);
        assert(key(rows[j]) == k && p(rows[j]));
    }
    if exists|i: int| 0 <= i < rows.len() && key(#[trigger] rows[i]) == k && p(rows[i]) {
        let j = choose|i: int| 0 <= i < rows.len() && key(#[trigger] rows[i]) == k && p(rows[i]);
        let i = lemma_filter_target(rows, p, j);
        assert(key(kept[i]) == k);
    }
}

/// References hold on when the table referred to gets one more row.
pub proof fn lemma_refers_parent_push<C, P, K>(
    children: Seq<C>,
    fk: spec_fn(C) -> K,
    parents: Seq<P>,
    pk: spec_fn(P) -> K,
    row: P,
)
    requires
        refers(children, fk, parents, pk),
    ensures
        refers(children, fk, parents.push(row), pk),
{
    assert forall|i: int| 0 <= i < children.len() implies has_key(
        parents.push(row),
        pk,
        fk(#[trigger] children[i]),
    ) by {
        lemma_has_key_push(parents, pk, row, fk(children[i]));
    }
}

/// References hold on when a row of the table referred to is replaced by a
/// row with the same key.
pub proof fn lemma_refers_parent_update<C, P, K>(
    children: Seq<C>,
    fk: spec_fn(C) -> K,
    parents: Seq<P>,
    pk: spec_fn(P) -> K,
    at: int,
    row: P,
)
    requires
        refers(children, fk, parents, pk),
        0 <= at < parents.len(),
        pk(row) == pk(parents[at]),
    ensures
        refers(children, fk, parents.update(at, row), pk),
{
    assert forall|i: int| 0 <= i < children.len() implies has_key(
        parents.update(at, row),
        pk,
        fk(#[trigger] children[i]),
    ) by {
        lemma_has_key_update(parents, pk, at, row, fk(children[i]));
    }
}

/// References hold on when the referring table gets one more row that
/// names a row of the other.
pub proof fn lemma_refers_child_push<C, P, K>(
    children: Seq<C>,
    fk: spec_fn(C) -> K,
    parents: Seq<P>,
    pk: spec_fn(P) -> K,
    row: C,
)
    requires
        refers(children, fk, parents, pk),
        has_key(parents, pk, fk(row)),
    ensures
        refers(children.push(row), fk, parents, pk),
{
    let after = children.push(row);
    assert forall|i: int| 0 <= i < after.len() implies has_key(
        parents,
        pk,
        fk(#[trigger] after[i]),
    ) by {
        if i < children.len() {
            assert(after[i] == children[i]);
        }
    }
}

/// References hold on when a row of the referring table is replaced by a
/// row that names a row of the other.
pub proof fn lemma_refers_child_update<C, P, K>(
    children: Seq<C>,
    fk: spec_fn(C) -> K,
    parents: Seq<P>,
    pk: spec_fn(P) -> K,
    at: int,
    row: C,
)
    requires
        refers(children, fk, parents, pk),
        0 <= at < children.len(),
        has_key(parents, pk, fk(row)),
    ensures
        refers(children.update(at, row), fk, parents, pk),
{
    let after = children.update(at, row);
    assert forall|i: int| 0 <= i < after.len() implies has_key(
        parents,
        pk,
        fk(#[trigger] after[i]),
    ) by {
        if i != at {
            assert(after[i] == children[i]);
        }
    }
}

/// References hold on when rows leave the referring table.
pub proof fn lemma_refers_child_filter<C, P, K>(
    children: Seq<C>,
    fk: spec_fn(C) -> K,
    parents: Seq<P>,
    pk: spec_fn(P) -> K,
    p: spec_fn(C) -> bool,
)
    requires
        refers(children, fk, parents, pk),
    ensures
        refers(children.filter(p), fk, parents, pk),
{
    let kept = children.filter(p);
    assert forall|i: int| 0 <= i < kept.len() implies has_key(
        parents,
        pk,
        fk(#[trigger] kept[i]),
    ) by {
        let j = lemma_filter_source(children, p, i);
    }
}

/// References hold on when rows leave the table referred to, as long as
/// every row that is named stays.
pub proof fn lemma_refers_parent_filter<C, P, K>(
    children: Seq<C>,
    fk: spec_fn(C) -> K,
    parents: Seq<P>,
    pk: spec_fn(P) -> K,
    p: spec_fn(P) -> bool,
)
    requires
        refers(children, fk, parents, pk),
        forall|i: int, j: int|
            0 <= i < children.len() && 0 <= j < parents.len() && pk(#[trigger] parents[j]) == fk(
                #[trigger] children[i],
            ) ==> p(parents[j]),
    ensures
        refers(children, fk, parents.filter(p), pk),
{
    assert forall|i: int| 0 <= i < children.len() implies has_key(
        parents.filter(p),
        pk,
        fk(#[trigger] children[i]),
    ) by {
        let k = fk(children[i]);
        let j = index_by(parents, pk, k);
        assert(p(parents[j]));
        lemma_has_key_filter(parents, pk, p, k);
    }
}

/// Every row of a table with one more row satisfies `q` where that row and
/// every row of the table do.
pub proof fn lemma_all_push<T>(rows: Seq<T>, q: spec_fn(T) -> bool, row: T)
    requires
        all(rows, q),
        q(row),
    ensures
        all(rows.push(row), q),
{
    let after = rows.push(row);
    assert forall|i: int| 0 <= i < after.len() implies q(#[trigger] after[i]) by {
        if i < rows.len() {
            assert(after[i] == rows[i]);
        }
    }
}

/// Every row of a table in which one row was replaced satisfies `q` where
/// the new row and every row of the table do.
pub proof fn lemma_all_update<T>(rows: Seq<T>, q: spec_fn(T) -> bool, at: int, row: T)
    requires
        all(rows, q),
        0 <= at < rows.len(),
        q(row),
    ensures
        all(rows.update(at, row), q),
{
    let after = rows.update(at, row);
    assert forall|i: int| 0 <= i < after.len() implies q(#[trigger] after[i]) by {
        if i != at {
            assert(after[i] == rows[i]);
        }
    }
}

/// Every row of `rows` has a number from 1 to `last` as its `key`.
pub open spec fn within<T>(rows: Seq<T>, key: spec_fn(T) -> int, last: int) -> bool {
    forall|i: int| 0 <= i < rows.len() ==> 1 <= key(#[trigger] rows[i]) <= last
}

/// No row of a table numbered up to `last` has a number above it.
pub proof fn lemma_within_fresh<T>(rows: Seq<T>, key: spec_fn(T) -> int, last: int, k: int)
    requires
        within(rows, key, last),
        k > last || k < 1,
    ensures
        !has_key(rows, key, k),
{
}

/// A table numbered up to `last` with one more row, numbered `last + 1`,
/// is numbered up to that.
pub proof fn lemma_within_push<T>(rows: Seq<T>, key: spec_fn(T) -> int, last: int, row: T)
    requires
        within(rows, key, last),
        last >= 0,
        key(row) == last + 1,
    ensures
        within(rows.push(row), key, last + 1),
{
    let after = rows.push(row);
    assert forall|i: int| 0 <= i < after.len() implies 1 <= key(#[trigger] after[i]) <= last
        + 1 by {
        if i < rows.len() {
            assert(after[i] == rows[i]);
        }
    }
}

/// A filtered table is numbered up to what the table is numbered up to.
pub proof fn lemma_within_filter<T>(
    rows: Seq<T>,
    key: spec_fn(T) -> int,
    last: int,
    p: spec_fn(T) -> bool,
)
    requires
        within(rows, key, last),
    ensures
        within(rows.filter(p), key, last),
{
    let kept = rows.filter(p);
    assert forall|i: int| 0 <= i < kept.len() implies 1 <= key(#[trigger] kept[i]) <= last by {
        let j = lemma_filter_source(rows, p, i);
    }
}

/// A table stays numbered up to `last` when one row is replaced by a row
/// with the same number.
pub proof fn lemma_within_update<T>(
    rows: Seq<T>,
    key: spec_fn(T) -> int,
    last: int,
    at: int,
    row: T,
)
    requires
        within(rows, key, last),
        0 <= at < rows.len(),
        key(row) == key(rows[at]),
    ensures
        within(rows.update(at, row), key, last),
{
    let after = rows.update(at, row);
    assert forall|i: int| 0 <= i < after.len() implies 1 <= key(#[trigger] after[i]) <= last by {
        assert(key(after[i]) == key(rows[i]));
    }
}

/// Filtering one more row of a table: the row joins what was kept of the
/// rows before it where it satisfies the filter, and else changes nothing.
pub proof fn lemma_filter_step<T>(rows: Seq<T>, p: spec_fn(T) -> bool, i: int)
    requires
        0 <= i < rows.len(),
    ensures
        rows.take(i + 1).filter(p) == if p(rows[i]) {
            rows.take(i).filter(p).push(rows[i])
        } else {
            rows.take(i).filter(p)
        },
        rows.take(0).filter(p) == Seq::<T>::empty(),
        rows.take(rows.len() as int) == rows,
{
    reveal(Seq::filter);
    assert(rows.take(i + 1) =~= rows.take(i).push(rows[i]));
    rows.take(i).lemma_filter_push(rows[i], p);
    assert(rows.take(0).filter(p) =~= Seq::<T>::empty());
    assert(rows.take(rows.len() as int) =~= rows);
}

/// Whether the `key` of a row is not `k`.
pub open spec fn not_keyed<T, K>(key: spec_fn(T) -> K, k: K) -> spec_fn(T) -> bool {
    |row: T| key(row) != k
}

/// In a table keyed by `key`, taking one row out is filtering out the
/// rows with its key.
pub proof fn lemma_remove_is_filter<T, K>(rows: Seq<T>, key: spec_fn(T) -> K, at: int)
    requires
        unique_by(rows, key),
        0 <= at < rows.len(),
    ensures
        rows.remove(at) == rows.filter(not_keyed(key, key(rows[at]))),
{
    let p = not_keyed(key, key(rows[at]));
    let head = rows.take(at);
    let tail = rows.skip(at + 1);
    let one = seq![rows[at]];
    assert(rows =~= head + one + tail);
    assert forall|i: int| 0 <= i < head.len() implies p(#[trigger] head[i]) by {
        assert(head[i] == rows[i]);
    }
    assert forall|i: int| 0 <= i < tail.len() implies p(#[trigger] tail[i]) by {
        assert(tail[i] == rows[at + 1 + i]);
    }
    lemma_filter_all(head, p);
    lemma_filter_all(tail, p);
    assert forall|i: int| 0 <= i < one.len() implies !p(#[trigger] one[i]) by {}
    lemma_filter_none(one, p);
    Seq::filter_distributes_over_add(head + one, tail, p);
    Seq::filter_distributes_over_add(head, one, p);
    assert(one.filter(p) =~= Seq::<T>::empty());
    assert(rows.remove(at) =~= head + tail);
    assert(rows.filter(p) =~= head + tail);
}

/// Whether the `key` of a row is `k`.
pub open spec fn keyed<T, K>(key: spec_fn(T) -> K, k: K) -> spec_fn(T) -> bool {
    |row: T| key(row) == k
}

/// In a table keyed by `key`, the rows with a key that some row has are
/// that one row.
pub proof fn lemma_one_keyed<T, K>(rows: Seq<T>, key: spec_fn(T) -> K, k: K)
    requires
        unique_by(rows, key),
        has_key(rows, key, k),
    ensures
        rows.filter(keyed(key, k)) == seq![row_by(rows, key, k)],
{
    let at = index_by(rows, key, k);
    let p = keyed(key, k);
    let head = rows.take(at);
    let tail = rows.skip(at + 1);
    let one = seq![rows[at]];
    assert(rows =~= head + one + tail);
    assert forall|i: int| 0 <= i < head.len() implies !p(#[trigger] head[i]) by {
        assert(head[i] == rows[i]);
    }
    assert forall|i: int| 0 <= i < tail.len() implies !p(#[trigger] tail[i]) by {
        assert(tail[i] == rows[at + 1 + i]);
    }
    lemma_filter_none(head, p);
    lemma_filter_none(tail, p);
    assert forall|i: int| 0 <= i < one.len() implies p(#[trigger] one[i]) by {}
    lemma_filter_all(one, p);
    Seq::filter_distributes_over_add(head + one, tail, p);
    Seq::filter_distributes_over_add(head, one, p);
    assert(head.filter(p) =~= Seq::<T>::empty());
    assert(tail.filter(p) =~= Seq::<T>::empty());
    assert(rows.filter(p) =~= one);
}

} // verus!
