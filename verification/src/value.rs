//! The mathematical model of array contents, and of sorted sequences of them.

use crate::options::SortOptions;
use vstd::prelude::*;

verus! {

/// What one slot of an array holds. A slot of a dictionary or run-end encoded array holds the
/// value that it stands for.
///
/// This type lives in specifications only: no program value has it.
pub enum Value {
    /// Null.
    Null,
    /// A number, date, time, duration, interval, decimal or boolean. Integers, dates, times,
    /// durations and decimals stand for themselves, `false` and `true` for 0 and 1, and every
    /// float and every interval of more than one part for its position in the total order by
    /// which Arrow compares its type.
    Number(int),
    /// A string or binary value, as its bytes.
    Bytes(Seq<u8>),
    /// A list.
    List(Seq<Value>),
    /// A value of any other type.
    Other(int),
}

/// The lexicographic order of byte strings: `a` does not come after `b`.
pub open spec fn bytes_le(a: Seq<u8>, b: Seq<u8>) -> bool
    decreases a.len(),
{
    if a.len() == 0 {
        true
    } else if b.len() == 0 {
        false
    } else if a[0] != b[0] {
        a[0] < b[0]
    } else {
        bytes_le(a.drop_first(), b.drop_first())
    }
}

/// The order of the items of a list: numbers and byte strings ascend, nulls come before or after
/// them. `a` does not come after `b`.
pub open spec fn item_le(a: Value, b: Value, nulls_first: bool) -> bool {
    match (a, b) {
        (Value::Null, Value::Null) => true,
        (Value::Null, _) => nulls_first,
        (_, Value::Null) => !nulls_first,
        (Value::Number(x), Value::Number(y)) => x <= y,
        (Value::Bytes(x), Value::Bytes(y)) => bytes_le(x, y),
        _ => false,
    }
}

/// The lexicographic order of lists: `a` does not come after `b`.
pub open spec fn list_le(a: Seq<Value>, b: Seq<Value>, nulls_first: bool) -> bool
    decreases a.len(),
{
    if a.len() == 0 {
        true
    } else if b.len() == 0 {
        false
    } else if a[0] != b[0] {
        item_le(a[0], b[0], nulls_first)
    } else {
        list_le(a.drop_first(), b.drop_first(), nulls_first)
    }
}

/// In ascending order, with nulls in lists before or after other items, `a` does not come after
/// `b`.
pub open spec fn value_le(a: Value, b: Value, nulls_first: bool) -> bool {
    match (a, b) {
        (Value::List(x), Value::List(y)) => list_le(x, y, nulls_first),
        _ => item_le(a, b, nulls_first),
    }
}

/// In the order that `options` asks for, `a` may stand before `b`.
///
/// The nulls in lists are placed so that of two lists that differ in whether an item is null,
/// the one with the null comes first where nulls come first.
pub open spec fn in_order(a: Value, b: Value, options: SortOptions) -> bool {
    match (a, b) {
        (Value::Null, Value::Null) => true,
        (Value::Null, _) => options.nulls_first,
        (_, Value::Null) => !options.nulls_first,
        _ => if options.descending {
            value_le(b, a, !options.nulls_first)
        } else {
            value_le(a, b, options.nulls_first)
        },
    }
}

/// Every value stands where `options` allows it to stand relative to every later one.
pub open spec fn is_ordered(s: Seq<Value>, options: SortOptions) -> bool {
    forall|i: int, j: int|
        0 <= i < j < s.len() ==> #[trigger] in_order(s[i], s[j], options)
}

/// `a` and `b` hold the same values, each equally often.
pub open spec fn is_permutation(a: Seq<Value>, b: Seq<Value>) -> bool {
    a.to_multiset() == b.to_multiset()
}

/// The kinds of values that Arrow has an order for.
pub enum Kind {
    Number,
    Bytes,
    NumberList,
    BytesList,
}

/// `v` is null or of kind `kind`; so are the items of a list.
pub open spec fn is_of_kind(v: Value, kind: Kind) -> bool {
    match (v, kind) {
        (Value::Null, _) => true,
        (Value::Number(_), Kind::Number) => true,
        (Value::Bytes(_), Kind::Bytes) => true,
        (Value::List(list), Kind::NumberList) => forall|i: int|
            0 <= i < list.len() ==> #[trigger] list[i] is Null || list[i] is Number,
        (Value::List(list), Kind::BytesList) => forall|i: int|
            0 <= i < list.len() ==> #[trigger] list[i] is Null || list[i] is Bytes,
        _ => false,
    }
}

/// The values of `s` that are not null are all of kind `kind`.
pub open spec fn all_of_kind(s: Seq<Value>, kind: Kind) -> bool {
    forall|i: int| 0 <= i < s.len() ==> is_of_kind(#[trigger] s[i], kind)
}

/// The values that are not null are all of one kind.
pub open spec fn is_uniform(s: Seq<Value>) -> bool {
    exists|kind: Kind| all_of_kind(s, kind)
}

/// `sorted` is what sorting `s` by `options` gives.
pub open spec fn is_sort_of(sorted: Seq<Value>, s: Seq<Value>, options: SortOptions) -> bool {
    &&& is_permutation(sorted, s)
    &&& is_ordered(sorted, options)
    &&& is_uniform(sorted)
}

/// Two byte strings that are each not after the other are the same.
proof fn lemma_bytes_antisymmetric(a: Seq<u8>, b: Seq<u8>)
    requires
        bytes_le(a, b),
        bytes_le(b, a),
    ensures
        a == b,
    decreases a.len(),
{
    if a.len() > 0 && b.len() > 0 {
        lemma_bytes_antisymmetric(a.drop_first(), b.drop_first());
        assert(a =~= seq![a[0]] + a.drop_first());
        assert(b =~= seq![b[0]] + b.drop_first());
    } else {
        assert(a =~= b);
    }
}

/// No byte string comes after itself.
proof fn lemma_bytes_reflexive(a: Seq<u8>)
    ensures
        bytes_le(a, a),
    decreases a.len(),
{
    if a.len() > 0 {
        lemma_bytes_reflexive(a.drop_first());
    }
}

/// Two items of lists of one kind that are each not after the other are the same.
proof fn lemma_item_antisymmetric(a: Value, b: Value, nulls_first: bool)
    requires
        item_le(a, b, nulls_first),
        item_le(b, a, nulls_first),
    ensures
        a == b,
{
    match (a, b) {
        (Value::Bytes(x), Value::Bytes(y)) => {
            lemma_bytes_antisymmetric(x, y);
        },
        _ => {},
    }
}

/// Two lists that are each not after the other are the same.
proof fn lemma_list_antisymmetric(a: Seq<Value>, b: Seq<Value>, nulls_first: bool)
    requires
        list_le(a, b, nulls_first),
        list_le(b, a, nulls_first),
    ensures
        a == b,
    decreases a.len(),
{
    if a.len() > 0 && b.len() > 0 {
        if a[0] != b[0] {
            lemma_item_antisymmetric(a[0], b[0], nulls_first);
        }
        lemma_list_antisymmetric(a.drop_first(), b.drop_first(), nulls_first);
        assert(a =~= seq![a[0]] + a.drop_first());
        assert(b =~= seq![b[0]] + b.drop_first());
    } else {
        assert(a =~= b);
    }
}

/// No list comes after itself.
proof fn lemma_list_reflexive(a: Seq<Value>, nulls_first: bool)
    ensures
        list_le(a, a, nulls_first),
    decreases a.len(),
{
    if a.len() > 0 {
        lemma_list_reflexive(a.drop_first(), nulls_first);
    }
}

/// Two values that may each stand before the other are the same.
pub proof fn lemma_in_order_antisymmetric(a: Value, b: Value, options: SortOptions)
    requires
        in_order(a, b, options),
        in_order(b, a, options),
    ensures
        a == b,
{
    let nulls_first = options.nulls_first != options.descending;
    match (a, b) {
        (Value::List(x), Value::List(y)) => {
            lemma_list_antisymmetric(x, y, nulls_first);
        },
        (Value::Null, _) => {},
        (_, Value::Null) => {},
        _ => {
            lemma_item_antisymmetric(a, b, nulls_first);
        },
    }
}

/// Every value of a uniform sequence may stand before itself.
proof fn lemma_in_order_reflexive(s: Seq<Value>, a: Value, options: SortOptions)
    requires
        is_uniform(s),
        s.contains(a),
    ensures
        in_order(a, a, options),
{
    let kind = choose|kind: Kind| all_of_kind(s, kind);
    assert(is_of_kind(a, kind));
    match a {
        Value::Bytes(x) => {
            lemma_bytes_reflexive(x);
        },
        Value::List(x) => {
            lemma_list_reflexive(x, options.nulls_first != options.descending);
        },
        _ => {},
    }
}

/// What is in one of two permutations of each other is in the other.
proof fn lemma_permutation_contains(a: Seq<Value>, b: Seq<Value>, v: Value)
    requires
        is_permutation(a, b),
    ensures
        a.contains(v) == b.contains(v),
{
    broadcast use vstd::seq_lib::group_to_multiset_ensures;

    assert(a.contains(v) == (a.to_multiset().count(v) > 0));
    assert(b.contains(v) == (b.to_multiset().count(v) > 0));
}

/// A permutation of a uniform sequence is uniform.
pub proof fn lemma_permutation_uniform(a: Seq<Value>, b: Seq<Value>)
    requires
        is_permutation(a, b),
        is_uniform(b),
    ensures
        is_uniform(a),
{
    let kind = choose|kind: Kind| all_of_kind(b, kind);
    assert forall|i: int| 0 <= i < a.len() implies is_of_kind(#[trigger] a[i], kind) by {
        assert(a.contains(a[i]));
        lemma_permutation_contains(a, b, a[i]);
    }
    assert(all_of_kind(a, kind));
}

/// Sorting has one result: two sequences that sort the same values by the same options are
/// equal.
pub proof fn law_sort_is_unique(
    x: Seq<Value>,
    y: Seq<Value>,
    s: Seq<Value>,
    options: SortOptions,
)
    requires
        is_sort_of(x, s, options),
        is_sort_of(y, s, options),
    ensures
        x == y,
    decreases x.len(),
{
    broadcast use vstd::seq_lib::group_to_multiset_ensures;

    assert(x.len() == x.to_multiset().len());
    assert(y.len() == y.to_multiset().len());
    if x.len() == 0 {
        assert(x =~= y);
    } else {
        let a = x[0];
        let b = y[0];
        assert(x.contains(a));
        assert(y.contains(b));
        lemma_permutation_contains(x, y, a);
        lemma_permutation_contains(x, y, b);
        lemma_in_order_reflexive(x, a, options);
        lemma_in_order_reflexive(x, b, options);
        let i = choose|i: int| 0 <= i < x.len() && x[i] == b;
        let j = choose|j: int| 0 <= j < y.len() && y[j] == a;
        assert(in_order(a, b, options)) by {
            if i > 0 {
                assert(in_order(x[0], x[i], options));
            }
        }
        assert(in_order(b, a, options)) by {
            if j > 0 {
                assert(in_order(y[0], y[j], options));
            }
        }
        lemma_in_order_antisymmetric(a, b, options);
        let xs = x.drop_first();
        let ys = y.drop_first();
        assert(xs =~= x.remove(0));
        assert(ys =~= y.remove(0));
        assert(is_ordered(xs, options)) by {
            assert forall|p: int, q: int| 0 <= p < q < xs.len() implies #[trigger] in_order(
                xs[p],
                xs[q],
                options,
            ) by {
                assert(in_order(x[p + 1], x[q + 1], options));
            }
        }
        assert(is_ordered(ys, options)) by {
            assert forall|p: int, q: int| 0 <= p < q < ys.len() implies #[trigger] in_order(
                ys[p],
                ys[q],
                options,
            ) by {
                assert(in_order(y[p + 1], y[q + 1], options));
            }
        }
        lemma_tail_uniform(x);
        lemma_tail_uniform(y);
        law_sort_is_unique(xs, ys, xs, options);
        assert(x =~= seq![a] + xs);
        assert(y =~= seq![b] + ys);
    }
}

/// The rest of a uniform sequence is uniform.
proof fn lemma_tail_uniform(s: Seq<Value>)
    requires
        is_uniform(s),
        s.len() > 0,
    ensures
        is_uniform(s.drop_first()),
{
    let kind = choose|kind: Kind| all_of_kind(s, kind);
    let t = s.drop_first();
    assert forall|i: int| 0 <= i < t.len() implies is_of_kind(#[trigger] t[i], kind) by {
        assert(t[i] == s[i + 1]);
    }
    assert(all_of_kind(t, kind));
}

/// Sorting leaves a sequence that is in order as it is, and so sorting twice is sorting once.
pub proof fn law_sort_is_idempotent(
    sorted: Seq<Value>,
    again: Seq<Value>,
    s: Seq<Value>,
    options: SortOptions,
)
    requires
        is_sort_of(sorted, s, options),
        is_sort_of(again, sorted, options),
    ensures
        again == sorted,
{
    law_sort_is_unique(again, sorted, sorted, options);
}

/// The order of the input does not matter: sorting two permutations of each other gives the
/// same result.
pub proof fn law_sort_ignores_input_order(
    x: Seq<Value>,
    y: Seq<Value>,
    s: Seq<Value>,
    t: Seq<Value>,
    options: SortOptions,
)
    requires
        is_permutation(s, t),
        is_sort_of(x, s, options),
        is_sort_of(y, t, options),
    ensures
        x == y,
{
    law_sort_is_unique(x, y, s, options);
}

/// Sorting the other way round, with the nulls at the other end, gives the reverse.
pub proof fn law_opposite_order_is_reverse(
    forward: Seq<Value>,
    backward: Seq<Value>,
    s: Seq<Value>,
    options: SortOptions,
)
    requires
        is_sort_of(forward, s, options),
        is_sort_of(
            backward,
            s,
            (SortOptions { descending: !options.descending, nulls_first: !options.nulls_first }),
        ),
    ensures
        backward == forward.reverse(),
{
    let opposite = SortOptions {
        descending: !options.descending,
        nulls_first: !options.nulls_first,
    };
    let r = forward.reverse();
    forward.lemma_reverse_to_multiset();
    assert(is_ordered(r, opposite)) by {
        assert forall|i: int, j: int| 0 <= i < j < r.len() implies #[trigger] in_order(
            r[i],
            r[j],
            opposite,
        ) by {
            let n = forward.len() as int;
            assert(in_order(forward[n - 1 - j], forward[n - 1 - i], options));
        }
    }
    lemma_permutation_uniform(r, forward);
    law_sort_is_unique(backward, r, s, opposite);
}

} // verus!
