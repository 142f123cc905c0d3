//! Newest first: the order of every list of dated rows.

use crate::text::{
    sorts_before, text_before, text_before_irreflexive, text_before_total, text_before_transitive,
};
use vstd::prelude::*;

verus! {

/// What a dated row is ordered by: its moment, where it has one, and its number.
pub type DateKey = (Option<Seq<char>>, int);

/// Whether a moment lies before another; a missing one lies before every other.
pub open spec fn moment_before(a: Option<Seq<char>>, b: Option<Seq<char>>) -> bool {
    match (a, b) {
        (None, None) => false,
        (None, Some(_)) => true,
        (Some(_), None) => false,
        (Some(x), Some(y)) => text_before(x, y),
    }
}

/// Whether a row with key `a` stands strictly above one with key `b`: it is the
/// newer one, or as new and of the higher number.
pub open spec fn above(a: DateKey, b: DateKey) -> bool {
    moment_before(b.0, a.0) || (a.0 == b.0 && a.1 > b.1)
}

/// No row stands above itself.
pub proof fn above_irreflexive(a: DateKey)
    ensures
        !above(a, a),
{
    match a.0 {
        Some(x) => {
            text_before_irreflexive(x);
        },
        None => {},
    }
}

/// Of two rows one stands above the other, unless they have the same key.
pub proof fn above_total(a: DateKey, b: DateKey)
    ensures
        above(a, b) || above(b, a) || a == b,
{
    match (a.0, b.0) {
        (Some(x), Some(y)) => {
            if !text_before(x, y) && !text_before(y, x) {
                text_before_total(x, y);
            }
        },
        _ => {},
    }
}

/// What stands above a row stands above all that this row stands above.
pub proof fn above_transitive(a: DateKey, b: DateKey, c: DateKey)
    requires
        above(a, b),
        above(b, c),
    ensures
        above(a, c),
{
    match (a.0, b.0, c.0) {
        (Some(x), Some(y), Some(z)) => {
            if text_before(y, x) && text_before(z, y) {
                text_before_transitive(z, y, x);
            }
        },
        _ => {},
    }
}

/// A row with a moment and a number.
pub trait Dated: Sized {
    /// What the row is ordered by.
    spec fn key(&self) -> DateKey;

    /// The moment of the row.
    fn moment(&self) -> (m: Option<&str>)
        ensures
            (match m {
                Some(s) => Some(s@),
                None => None,
            }) == self.key().0,
    ;

    /// The number of the row.
    fn id(&self) -> (n: i64)
        ensures
            n == self.key().1,
    ;
}

/// Whether `a` stands strictly above `b`.
fn stands_above<T: Dated>(a: &T, b: &T) -> (r: bool)
    ensures
        r == above(a.key(), b.key()),
{
    match (b.moment(), a.moment()) {
        (None, None) => a.id() > b.id(),
        (None, Some(_)) => true,
        (Some(_), None) => false,
        (Some(x), Some(y)) => {
            if sorts_before(x, y) {
                true
            } else if sorts_before(y, x) {
                proof {
                    text_before_irreflexive(x@);
                }
                false
            } else {
                proof {
                    text_before_total(x@, y@);
                }
                a.id() > b.id()
            }
        },
    }
}

/// Whether no row stands above an earlier one.
pub open spec fn newest_first<T: Dated>(rows: Seq<T>) -> bool {
    forall|i: int, j: int|
        0 <= i < j < rows.len() ==> !above((#[trigger] rows[j]).key(), (#[trigger] rows[i]).key())
}

/// The rows of one key, in order.
pub open spec fn with_key<T: Dated>(rows: Seq<T>, key: DateKey) -> Seq<T> {
    rows.filter(|r: T| r.key() == key)
}

/// Whether `out` is `rows` put in order: newest first, the same rows, and rows
/// of the same key in the order they had.
pub open spec fn ordered<T: Dated>(rows: Seq<T>, out: Seq<T>) -> bool {
    &&& newest_first(out)
    &&& out.to_multiset() == rows.to_multiset()
    &&& forall|key: DateKey| #[trigger] with_key(out, key) == with_key(rows, key)
}

/// Two lists put in order from the same rows are the same: the order leaves
/// nothing open.
pub proof fn order_is_unique<T: Dated>(rows: Seq<T>, a: Seq<T>, b: Seq<T>)
    requires
        ordered(rows, a),
        ordered(rows, b),
    ensures
        a == b,
{
    same_order(a, b);
}

/// A list in order is fixed by the rows of each key.
proof fn same_order<T: Dated>(a: Seq<T>, b: Seq<T>)
    requires
        newest_first(a),
        newest_first(b),
        forall|key: DateKey| #[trigger] with_key(a, key) == with_key(b, key),
    ensures
        a == b,
    decreases a.len() + b.len(),
{
    reveal(Seq::filter);
    if a.len() == 0 && b.len() == 0 {
        assert(a =~= b);
    } else if a.len() == 0 {
        assert(with_key(a, b.last().key()).len() == 0);
        assert(with_key(b, b.last().key()).last() == b.last());
        assert(false);
    } else if b.len() == 0 {
        assert(with_key(a, a.last().key()).last() == a.last());
        assert(false);
    } else {
        let x = a.last();
        let y = b.last();
        last_is_last(a, b);
        last_is_last(b, a);
        above_total(x.key(), y.key());
        assert(x.key() == y.key());
        assert(with_key(a, x.key()).last() == x);
        assert(with_key(b, x.key()).last() == y);
        assert forall|key: DateKey| #[trigger] with_key(a.drop_last(), key) == with_key(
            b.drop_last(),
            key,
        ) by {
            assert(with_key(a, key) == with_key(b, key));
            if key == x.key() {
                assert(with_key(a, key).drop_last() =~= with_key(a.drop_last(), key));
                assert(with_key(b, key).drop_last() =~= with_key(b.drop_last(), key));
            }
        }
        same_order(a.drop_last(), b.drop_last());
        assert(a =~= a.drop_last().push(x));
        assert(b =~= b.drop_last().push(y));
    }
}

/// Putting rows in order leaves as many.
pub(crate) proof fn order_keeps_the_number<T: Dated>(rows: Seq<T>, out: Seq<T>)
    requires
        ordered(rows, out),
    ensures
        out.len() == rows.len(),
{
    broadcast use vstd::seq_lib::group_to_multiset_ensures;

    assert(out.to_multiset().len() == rows.to_multiset().len());
}

/// What rows show, in order.
pub open spec fn shown<T, V>(rows: Seq<T>, show: spec_fn(T) -> V) -> Seq<V> {
    Seq::new(rows.len(), |i: int| show(rows[i]))
}

/// What the rows of one key show, in order.
spec fn seen<T: Dated, V>(rows: Seq<T>, key: DateKey, show: spec_fn(T) -> V) -> Seq<V> {
    shown(with_key(rows, key), show)
}

/// Two lists put in order from rows that show the same show the same, where what
/// a row shows decides its key.
pub proof fn order_shows_the_same<T: Dated, V>(
    rows: Seq<T>,
    others: Seq<T>,
    a: Seq<T>,
    b: Seq<T>,
    show: spec_fn(T) -> V,
    key_of: spec_fn(V) -> DateKey,
)
    requires
        ordered(rows, a),
        ordered(others, b),
        shown(rows, show) == shown(others, show),
        forall|x: T| key_of(#[trigger] show(x)) == x.key(),
    ensures
        shown(a, show) == shown(b, show),
{
    assert forall|key: DateKey| #[trigger] seen(a, key, show) == seen(b, key, show) by {
        same_rows_are_seen(rows, others, key, show, key_of);
        assert(with_key(a, key) == with_key(rows, key));
        assert(with_key(b, key) == with_key(others, key));
    }
    same_order_is_seen(a, b, show, key_of);
}

/// Rows that show the same show the same key by key.
proof fn same_rows_are_seen<T: Dated, V>(
    rows: Seq<T>,
    others: Seq<T>,
    key: DateKey,
    show: spec_fn(T) -> V,
    key_of: spec_fn(V) -> DateKey,
)
    requires
        shown(rows, show) == shown(others, show),
        forall|x: T| key_of(#[trigger] show(x)) == x.key(),
    ensures
        seen(rows, key, show) == seen(others, key, show),
    decreases rows.len(),
{
    reveal(Seq::filter);
    assert(shown(rows, show).len() == rows.len());
    assert(shown(others, show).len() == others.len());
    if rows.len() > 0 {
        let n = rows.len() - 1;
        let less = rows.drop_last();
        let fewer = others.drop_last();
        assert(shown(rows, show)[n] == show(rows[n]));
        assert(shown(others, show)[n] == show(others[n]));
        assert(show(rows.last()) == show(others.last()));
        assert(key_of(show(rows.last())) == rows.last().key());
        assert(key_of(show(others.last())) == others.last().key());
        assert forall|i: int| 0 <= i < n implies show(#[trigger] less[i]) == show(fewer[i]) by {
            assert(shown(rows, show)[i] == show(rows[i]));
            assert(shown(others, show)[i] == show(others[i]));
        }
        assert(shown(less, show) =~= shown(fewer, show));
        same_rows_are_seen(less, fewer, key, show, key_of);
        if rows.last().key() == key {
            assert(seen(rows, key, show) =~= seen(less, key, show).push(show(rows.last())));
            assert(seen(others, key, show) =~= seen(fewer, key, show).push(show(others.last())));
        }
    } else {
        assert(rows =~= others);
    }
}

/// What a list in order shows is fixed by what the rows of each key show.
proof fn same_order_is_seen<T: Dated, V>(
    a: Seq<T>,
    b: Seq<T>,
    show: spec_fn(T) -> V,
    key_of: spec_fn(V) -> DateKey,
)
    requires
        newest_first(a),
        newest_first(b),
        forall|key: DateKey| #[trigger] seen(a, key, show) == seen(b, key, show),
        forall|x: T| key_of(#[trigger] show(x)) == x.key(),
    ensures
        shown(a, show) == shown(b, show),
    decreases a.len() + b.len(),
{
    reveal(Seq::filter);
    assert forall|key: DateKey| #[trigger] with_key(a, key).len() == with_key(b, key).len() by {
        assert(seen(a, key, show).len() == seen(b, key, show).len());
    }
    if a.len() == 0 && b.len() == 0 {
        assert(shown(a, show) =~= shown(b, show));
    } else if a.len() == 0 {
        assert(with_key(a, b.last().key()).len() == 0);
        assert(with_key(b, b.last().key()).last() == b.last());
        assert(false);
    } else if b.len() == 0 {
        assert(with_key(a, a.last().key()).last() == a.last());
        assert(false);
    } else {
        let x = a.last();
        let y = b.last();
        last_is_last(a, b);
        last_is_last(b, a);
        above_total(x.key(), y.key());
        assert(x.key() == y.key());
        let less = a.drop_last();
        let fewer = b.drop_last();
        assert(with_key(a, x.key()) == with_key(less, x.key()).push(x));
        assert(with_key(b, x.key()) == with_key(fewer, x.key()).push(y));
        assert(seen(a, x.key(), show) =~= seen(less, x.key(), show).push(show(x)));
        assert(seen(b, x.key(), show) =~= seen(fewer, x.key(), show).push(show(y)));
        assert(seen(a, x.key(), show) == seen(b, x.key(), show));
        assert(seen(a, x.key(), show).last() == show(x));
        assert(seen(b, x.key(), show).last() == show(y));
        assert forall|key: DateKey| #[trigger] seen(less, key, show) == seen(
            fewer,
            key,
            show,
        ) by {
            assert(seen(a, key, show) == seen(b, key, show));
            if key == x.key() {
                assert(seen(a, key, show).drop_last() =~= seen(less, key, show));
                assert(seen(b, key, show).drop_last() =~= seen(fewer, key, show));
            } else {
                assert(with_key(a, key) == with_key(less, key));
                assert(with_key(b, key) == with_key(fewer, key));
            }
        }
        same_order_is_seen(less, fewer, show, key_of);
        assert(shown(a, show) =~= shown(less, show).push(show(x)));
        assert(shown(b, show) =~= shown(fewer, show).push(show(y)));
    }
}

/// The last row of a list does not stand above that of another list in order
/// with as many rows of each key.
proof fn last_is_last<T: Dated>(a: Seq<T>, b: Seq<T>)
    requires
        a.len() > 0,
        b.len() > 0,
        newest_first(b),
        forall|key: DateKey| #[trigger] with_key(a, key).len() == with_key(b, key).len(),
    ensures
        !above(b.last().key(), a.last().key()),
{
    reveal(Seq::filter);
    let x = a.last();
    assert(with_key(a, x.key()).last() == x);
    assert(with_key(b, x.key()).len() > 0);
    let i = holder(b, x.key());
    if i == b.len() - 1 {
        above_irreflexive(x.key());
    }
}

/// A list that has rows of a key has one at some position.
proof fn holder<T: Dated>(rows: Seq<T>, key: DateKey) -> (i: int)
    requires
        with_key(rows, key).len() > 0,
    ensures
        0 <= i < rows.len(),
        rows[i].key() == key,
    decreases rows.len(),
{
    reveal(Seq::filter);
    if rows.last().key() == key {
        rows.len() - 1
    } else {
        holder(rows.drop_last(), key)
    }
}

/// Rows of other keys do not count.
proof fn none_with_key<T: Dated>(rows: Seq<T>, key: DateKey)
    requires
        forall|i: int| 0 <= i < rows.len() ==> (#[trigger] rows[i]).key() != key,
    ensures
        with_key(rows, key).len() == 0,
    decreases rows.len(),
{
    reveal(Seq::filter);
    if rows.len() > 0 {
        assert forall|i: int| 0 <= i < rows.drop_last().len() implies (
        #[trigger] rows.drop_last()[i]).key() != key by {
            assert(rows.drop_last()[i] == rows[i]);
        }
        none_with_key(rows.drop_last(), key);
    }
}

/// Putting one more row into a list in order, below all that it does not stand
/// above, keeps the order.
proof fn insertion_keeps_order<T: Dated>(rows: Seq<T>, done: Seq<T>, x: T, p: int)
    requires
        ordered(rows, done),
        0 <= p <= done.len(),
        forall|i: int| 0 <= i < p ==> !above(x.key(), (#[trigger] done[i]).key()),
        p < done.len() ==> above(x.key(), done[p].key()),
    ensures
        ordered(rows.push(x), done.insert(p, x)),
{
    let out = done.insert(p, x);
    let left = done.take(p);
    let right = done.skip(p);
    assert(done =~= left + right);
    assert(out =~= left + seq![x] + right);
    assert forall|j: int| p <= j < done.len() implies above(
        x.key(),
        (#[trigger] done[j]).key(),
    ) by {
        if j > p {
            above_total(done[p].key(), done[j].key());
            if above(done[p].key(), done[j].key()) {
                above_transitive(x.key(), done[p].key(), done[j].key());
            }
        }
    }
    assert forall|i: int, j: int| 0 <= i < j < out.len() implies !above(
        (#[trigger] out[j]).key(),
        (#[trigger] out[i]).key(),
    ) by {
        if i == p {
            let y = done[j - 1];
            assert(out[j] == y);
            if above(y.key(), x.key()) {
                above_transitive(x.key(), y.key(), x.key());
                above_irreflexive(x.key());
            }
        }
    }
    assert(out.to_multiset() == rows.push(x).to_multiset()) by {
        broadcast use vstd::seq_lib::group_to_multiset_ensures;

        assert(done.insert(p, x).to_multiset() =~= done.to_multiset().insert(x));
        assert(rows.push(x).to_multiset() =~= rows.to_multiset().insert(x));
    }
    assert forall|key: DateKey| #[trigger] with_key(out, key) == with_key(rows.push(x), key) by {
        let pred = |r: T| r.key() == key;
        Seq::filter_distributes_over_add(left + seq![x], right, pred);
        Seq::filter_distributes_over_add(left, seq![x], pred);
        Seq::filter_distributes_over_add(left, right, pred);
        Seq::filter_distributes_over_add(rows, seq![x], pred);
        assert(rows.push(x) =~= rows + seq![x]);
        assert(with_key(done, key) == with_key(rows, key));
        if key == x.key() {
            assert forall|i: int| 0 <= i < right.len() implies (#[trigger] right[i]).key()
                != key by {
                assert(right[i] == done[p + i]);
                above_irreflexive(key);
            }
            none_with_key(right, key);
            assert(right.filter(pred) =~= Seq::empty());
        } else {
            none_with_key(seq![x], key);
            assert(seq![x].filter(pred) =~= Seq::empty());
        }
        assert(out.filter(pred) =~= rows.push(x).filter(pred));
    }
}

/// Puts rows in order, newest first. Rows of the same key keep their order.
pub fn sort_newest_first<T: Dated>(rows: Vec<T>) -> (out: Vec<T>)
    ensures
        ordered(rows@, out@),
{
    let ghost given = rows@;
    let mut rest: Vec<T> = rows;
    let mut out: Vec<T> = Vec::new();
    proof {
        assert(given.take(0) =~= Seq::empty());
        assert(given.skip(0) =~= given);
        assert forall|key: DateKey| #[trigger] with_key(out@, key) == with_key(
            given.take(0),
            key,
        ) by {
            assert(out@ =~= given.take(0));
        }
        assert(out@ =~= given.take(0));
    }
    while rest.len() > 0
        invariant
            out@.len() + rest@.len() == given.len(),
            rest@ == given.skip(out@.len() as int),
            ordered(given.take(out@.len() as int), out@),
        decreases rest@.len(),
    {
        let ghost n = out@.len() as int;
        let x: T = rest.remove(0);
        assert(x == given[n]);
        assert(rest@ =~= given.skip(n + 1));
        let mut p: usize = 0;
        while p < out.len() && !stands_above(&x, &out[p])
            invariant
                p <= out@.len(),
                forall|i: int| 0 <= i < p ==> !above(x.key(), (#[trigger] out@[i]).key()),
            decreases out@.len() - p,
        {
            p += 1;
        }
        proof {
            insertion_keeps_order(given.take(n), out@, x, p as int);
            assert(given.take(n).push(x) =~= given.take(n + 1));
        }
        out.insert(p, x);
    }
    assert(given.take(given.len() as int) =~= given);
    out
}

} // verus!
