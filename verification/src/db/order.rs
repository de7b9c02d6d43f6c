//! Putting rows in order.

use vstd::prelude::*;

use crate::time::Timestamp;

verus! {

/// The order of sort keys: the first difference decides, and a key comes before its extensions.
pub open spec fn key_before(a: Seq<i64>, b: Seq<i64>) -> bool
    decreases a.len(),
{
    if b.len() == 0 {
        false
    } else if a.len() == 0 {
        true
    } else if a[0] != b[0] {
        a[0] < b[0]
    } else {
        key_before(a.skip(1), b.skip(1))
    }
}

/// Of two keys one comes before the other, or they are the same; never two of these.
pub proof fn keys_are_totally_ordered(a: Seq<i64>, b: Seq<i64>)
    ensures
        key_before(a, b) || key_before(b, a) || a == b,
        !(key_before(a, b) && key_before(b, a)),
        !key_before(a, a),
    decreases a.len(),
{
    if a.len() > 0 {
        keys_are_totally_ordered(a.skip(1), a.skip(1));
    }
    if a.len() > 0 && b.len() > 0 && a[0] == b[0] {
        keys_are_totally_ordered(a.skip(1), b.skip(1));
        if a.skip(1) == b.skip(1) {
            assert(a =~= seq![a[0]] + a.skip(1));
            assert(b =~= seq![b[0]] + b.skip(1));
        }
    } else if a.len() == 0 && b.len() == 0 {
        assert(a =~= b);
    }
}

/// The order of keys is transitive.
pub proof fn key_order_is_transitive(a: Seq<i64>, b: Seq<i64>, c: Seq<i64>)
    requires
        key_before(a, b),
        key_before(b, c),
    ensures
        key_before(a, c),
    decreases a.len(),
{
    if a.len() > 0 && b.len() > 0 && c.len() > 0 && a[0] == b[0] && b[0] == c[0] {
        key_order_is_transitive(a.skip(1), b.skip(1), c.skip(1));
    }
}

/// The keys of a list of rows, as values.
pub open spec fn key_values(keys: Seq<Vec<i64>>) -> Seq<Seq<i64>> {
    keys.map_values(|k: Vec<i64>| k@)
}

/// Row `a` comes before row `b`: by its key, or by its place where the keys are the same.
pub open spec fn row_before(keys: Seq<Seq<i64>>, a: int, b: int) -> bool {
    key_before(keys[a], keys[b]) || (keys[a] == keys[b] && a < b)
}

/// `order` lists the places of all rows in the order of their keys.
pub open spec fn is_order(keys: Seq<Seq<i64>>, order: Seq<usize>) -> bool {
    &&& order.len() == keys.len()
    &&& forall|i: int| 0 <= i < order.len() ==> (#[trigger] order[i]) < keys.len()
    &&& forall|i: int, j: int|
        0 <= i < j < order.len() ==> row_before(keys, order[i] as int, order[j] as int)
}

/// An order lists each row exactly once.
pub proof fn order_lists_each_row_once(keys: Seq<Seq<i64>>, order: Seq<usize>, row: int)
    requires
        is_order(keys, order),
        0 <= row < keys.len(),
    ensures
        exists|i: int| 0 <= i < order.len() && order[i] == row,
        forall|i: int, j: int| 0 <= i < j < order.len() ==> order[i] != order[j],
{
    assert forall|i: int, j: int| 0 <= i < j < order.len() implies order[i] != order[j] by {
        assert(row_before(keys, order[i] as int, order[j] as int));
        keys_are_totally_ordered(keys[order[i] as int], keys[order[j] as int]);
    }
    let places = order.map_values(|x: usize| x as int);
    assert(places.no_duplicates());
    places.unique_seq_to_set();
    let all = vstd::set_lib::set_int_range(0, keys.len() as int);
    vstd::set_lib::lemma_int_range(0, keys.len() as int);
    assert(places.to_set().subset_of(all)) by {
        assert forall|x: int| places.to_set().contains(x) implies all.contains(x) by {
            let i = choose|i: int| 0 <= i < places.len() && places[i] == x;
            assert(order[i] == x);
        }
    }
    vstd::set_lib::lemma_subset_equality(places.to_set(), all);
    assert(places.to_set().contains(row));
    let i = choose|i: int| 0 <= i < places.len() && places[i] == row;
    assert(order[i] == row);
}

/// Rows have only one order.
pub proof fn order_is_unique(keys: Seq<Seq<i64>>, a: Seq<usize>, b: Seq<usize>)
    requires
        is_order(keys, a),
        is_order(keys, b),
    ensures
        a == b,
{
    assert forall|i: int| 0 <= i < a.len() implies a[i] == b[i] by {
        orders_agree(keys, a, b, i);
    }
    assert(a =~= b);
}

proof fn orders_agree(keys: Seq<Seq<i64>>, a: Seq<usize>, b: Seq<usize>, i: int)
    requires
        is_order(keys, a),
        is_order(keys, b),
        0 <= i < a.len(),
    ensures
        forall|k: int| 0 <= k <= i ==> a[k] == b[k],
    decreases i,
{
    if i > 0 {
        orders_agree(keys, a, b, i - 1);
    }
    if a[i] != b[i] {
        order_lists_each_row_once(keys, a, b[i] as int);
        order_lists_each_row_once(keys, b, a[i] as int);
        let j = choose|j: int| 0 <= j < a.len() && a[j] == b[i];
        let k = choose|k: int| 0 <= k < b.len() && b[k] == a[i];
        if j < i {
            assert(a[j] == b[j]);
        }
        if k < i {
            assert(a[k] == b[k]);
        }
        assert(row_before(keys, a[i] as int, a[j] as int));
        assert(row_before(keys, b[i] as int, b[k] as int));
        keys_are_totally_ordered(keys[a[i] as int], keys[b[i] as int]);
    }
}

/// The order of rows with the given keys: their places, one after the other.
pub open spec fn the_order(keys: Seq<Seq<i64>>) -> Seq<usize> {
    choose|order: Seq<usize>| is_order(keys, order)
}

fn is_key_before(a: &Vec<i64>, b: &Vec<i64>) -> (r: bool)
    ensures
        r == key_before(a@, b@),
{
    let mut i: usize = 0;
    assert(a@.skip(0) =~= a@);
    assert(b@.skip(0) =~= b@);
    while i < a.len() && i < b.len()
        invariant
            i <= a@.len(),
            i <= b@.len(),
            key_before(a@, b@) == key_before(a@.skip(i as int), b@.skip(i as int)),
        decreases a.len() - i,
    {
        if a[i] != b[i] {
            return a[i] < b[i];
        }
        assert(a@.skip(i as int).skip(1) =~= a@.skip(i + 1));
        assert(b@.skip(i as int).skip(1) =~= b@.skip(i + 1));
        i += 1;
    }
    i < b.len()
}

/// The places of all rows in the order of their keys.
pub fn order_of(keys: &Vec<Vec<i64>>) -> (r: Vec<usize>)
    ensures
        is_order(key_values(keys@), r@),
        r@ == the_order(key_values(keys@)),
{
    let ghost values = key_values(keys@);
    let mut order: Vec<usize> = Vec::new();
    let mut i: usize = 0;
    while i < keys.len()
        invariant
            i <= keys@.len(),
            values == key_values(keys@),
            order@.len() == i,
            forall|k: int| 0 <= k < order@.len() ==> (#[trigger] order@[k]) < i,
            forall|j: int, k: int|
                0 <= j < k < order@.len() ==> row_before(
                    values,
                    order@[j] as int,
                    order@[k] as int,
                ),
        decreases keys.len() - i,
    {
        let mut at: usize = 0;
        while at < order.len() && !is_key_before(&keys[i], &keys[order[at]])
            invariant
                i < keys@.len(),
                at <= order@.len(),
                values == key_values(keys@),
                forall|k: int| 0 <= k < order@.len() ==> (#[trigger] order@[k]) < i,
                forall|k: int|
                    0 <= k < at ==> row_before(values, #[trigger] order@[k] as int, i as int),
            decreases order.len() - at,
        {
            proof {
                keys_are_totally_ordered(values[i as int], values[order@[at as int] as int]);
            }
            at += 1;
        }
        let ghost before = order@;
        order.insert(at, i);
        assert forall|j: int, k: int| 0 <= j < k < order@.len() implies row_before(
            values,
            order@[j] as int,
            order@[k] as int,
        ) by {
            if k < at {
                assert(row_before(values, before[j] as int, before[k] as int));
            } else if k == at {
                assert(row_before(values, before[j] as int, i as int));
            } else if j == at {
                let first = before[at as int] as int;
                let other = before[k - 1] as int;
                assert(key_before(values[i as int], values[first]));
                if k - 1 > at {
                    assert(row_before(values, first, other));
                    if key_before(values[first], values[other]) {
                        key_order_is_transitive(values[i as int], values[first], values[other]);
                    }
                }
            } else if j < at {
                assert(row_before(values, before[j] as int, before[k - 1] as int));
            } else {
                assert(row_before(values, before[j - 1] as int, before[k - 1] as int));
            }
        }
        i += 1;
    }
    proof {
        order_is_unique(values, order@, the_order(values));
    }
    order
}

// --- Keys ---

/// The key that puts times in ascending order.
pub open spec fn time_key(t: Timestamp) -> Seq<i64> {
    seq![t.secs(), t.nanos() as i64]
}

/// The key that puts times in descending order.
pub open spec fn newest_key(t: Timestamp) -> Seq<i64> {
    seq![(-t.secs()) as i64, (-(t.nanos() as int)) as i64]
}

/// Keys order times as they follow each other.
pub proof fn time_keys_follow_time(a: Timestamp, b: Timestamp)
    requires
        a.secs() > i64::MIN,
        b.secs() > i64::MIN,
    ensures
        key_before(time_key(a), time_key(b)) == a.before(b),
        key_before(newest_key(a), newest_key(b)) == b.before(a),
{
    assert(time_key(a).skip(1)[0] == a.nanos());
    assert(time_key(b).skip(1)[0] == b.nanos());
    assert(newest_key(a).skip(1)[0] == -(a.nanos() as int));
    assert(newest_key(b).skip(1)[0] == -(b.nanos() as int));
    reveal_with_fuel(key_before, 3);
    assert(time_key(b).skip(1).skip(1).len() == 0);
    assert(newest_key(b).skip(1).skip(1).len() == 0);
}

/// The key that puts a time in descending order.
pub fn newest_first_key(t: &Timestamp) -> (r: Vec<i64>)
    ensures
        r@ == newest_key(*t),
{
    let mut key: Vec<i64> = Vec::new();
    let secs = t.seconds();
    let nanos = t.subsec_nanos();
    key.push(-secs);
    key.push(-(nanos as i64));
    assert(key@ =~= newest_key(*t));
    key
}

/// The sort value that puts characters in descending order.
pub open spec fn descending_code(c: char) -> i64 {
    (-(c as u32 as int)) as i64
}

/// The key that puts texts in descending order of their characters. The last entry puts a text
/// behind its extensions.
pub open spec fn text_key(s: Seq<char>) -> Seq<i64> {
    s.map_values(|c: char| descending_code(c)).push(1)
}

/// The key that puts a text in descending order.
pub fn descending_text_key(s: &str) -> (r: Vec<i64>)
    ensures
        r@ == text_key(s@),
{
    let mut key: Vec<i64> = Vec::new();
    for c in it: s.chars()
        invariant
            it.seq() == s@,
            key@.len() == it.index(),
            forall|j: int| 0 <= j < key@.len() ==> #[trigger] key@[j] == descending_code(s@[j]),
    {
        proof {
            vstd::utf8::char_is_scalar(c);
        }
        let code: u32 = c as u32;
        key.push(-(code as i64));
    }
    key.push(1);
    assert(key@ =~= text_key(s@));
    key
}

// --- What orders mean ---

/// Where two texts differ first: their first `n` characters are the same, and then the first text
/// ends or has the lower character.
pub open spec fn is_less_at(a: Seq<char>, b: Seq<char>, n: int) -> bool {
    &&& 0 <= n <= a.len()
    &&& n < b.len()
    &&& forall|i: int| 0 <= i < n ==> #[trigger] a[i] == b[i]
    &&& n == a.len() || (a[n] as u32) < (b[n] as u32)
}

/// The first text comes before the second by the codes of their characters.
pub open spec fn is_text_before(a: Seq<char>, b: Seq<char>) -> bool {
    exists|n: int| is_less_at(a, b, n)
}

/// How many characters two texts share from their start on.
spec fn common_len(a: Seq<char>, b: Seq<char>) -> int
    decreases a.len(),
{
    if a.len() == 0 || b.len() == 0 || a[0] != b[0] {
        0
    } else {
        1 + common_len(a.skip(1), b.skip(1))
    }
}

proof fn common_len_is_most(a: Seq<char>, b: Seq<char>)
    ensures
        0 <= common_len(a, b) <= a.len(),
        common_len(a, b) <= b.len(),
        forall|i: int| 0 <= i < common_len(a, b) ==> #[trigger] a[i] == b[i],
        common_len(a, b) < a.len() && common_len(a, b) < b.len() ==> a[common_len(a, b)]
            != b[common_len(a, b)],
    decreases a.len(),
{
    if a.len() > 0 && b.len() > 0 && a[0] == b[0] {
        let n = common_len(a.skip(1), b.skip(1));
        common_len_is_most(a.skip(1), b.skip(1));
        assert forall|i: int| 0 <= i < n + 1 implies #[trigger] a[i] == b[i] by {
            if i > 0 {
                assert(a.skip(1)[i - 1] == b.skip(1)[i - 1]);
            }
        }
    }
}

/// Keys are compared at the first place where they differ.
pub proof fn first_difference_decides(a: Seq<i64>, b: Seq<i64>, n: int)
    requires
        0 <= n < a.len(),
        n < b.len(),
        forall|i: int| 0 <= i < n ==> #[trigger] a[i] == b[i],
        a[n] != b[n],
    ensures
        key_before(a, b) == (a[n] < b[n]),
    decreases n,
{
    if n > 0 {
        assert(a[0] == b[0]);
        assert forall|i: int| 0 <= i < n - 1 implies #[trigger] a.skip(1)[i] == b.skip(1)[i] by {
            assert(a[i + 1] == b[i + 1]);
        }
        first_difference_decides(a.skip(1), b.skip(1), n - 1);
    }
}

/// The keys of texts put them in descending order of their characters.
pub proof fn text_keys_follow_text(a: Seq<char>, b: Seq<char>)
    ensures
        key_before(text_key(a), text_key(b)) <==> is_text_before(b, a),
{
    let n = common_len(a, b);
    common_len_is_most(a, b);
    let x = text_key(a);
    let y = text_key(b);
    assert(forall|i: int| 0 <= i < a.len() ==> #[trigger] x[i] == -(a[i] as u32 as int)) by {
        assert forall|i: int| 0 <= i < a.len() implies #[trigger] x[i] == -(a[i] as u32 as int) by {
            vstd::utf8::char_is_scalar(a[i]);
        }
    }
    assert(forall|i: int| 0 <= i < b.len() ==> #[trigger] y[i] == -(b[i] as u32 as int)) by {
        assert forall|i: int| 0 <= i < b.len() implies #[trigger] y[i] == -(b[i] as u32 as int) by {
            vstd::utf8::char_is_scalar(b[i]);
        }
    }
    assert(x[a.len() as int] == 1);
    assert(y[b.len() as int] == 1);
    if n == a.len() && n == b.len() {
        assert(a =~= b);
        keys_are_totally_ordered(x, x);
        if is_text_before(b, a) {
            let m = choose|m: int| is_less_at(b, a, m);
            assert(a[m] == b[m]);
        }
    } else {
        assert forall|i: int| 0 <= i < n implies #[trigger] x[i] == y[i] by {
            assert(a[i] == b[i]);
        }
        if n < a.len() && n < b.len() {
            vstd::utf8::char_u32_cast(a[n], a[n] as u32);
            vstd::utf8::char_u32_cast(b[n], b[n] as u32);
            assert(a[n] as u32 != b[n] as u32);
        }
        first_difference_decides(x, y, n);
        if x[n] < y[n] {
            assert(is_less_at(b, a, n));
        }
        if is_text_before(b, a) {
            let m = choose|m: int| is_less_at(b, a, m);
            if m < n {
                assert(a[m] == b[m]);
            }
            if n < m {
                assert(b[n] == a[n]);
            }
        }
    }
}

/// Every list of rows has an order.
pub proof fn rows_have_an_order(keys: Seq<Seq<i64>>)
    requires
        keys.len() <= usize::MAX,
    ensures
        is_order(keys, the_order(keys)),
{
    let order = order_up_to(keys, keys.len() as int);
    assert(keys.take(keys.len() as int) =~= keys);
    assert(is_order(keys, order));
}

proof fn order_up_to(keys: Seq<Seq<i64>>, n: int) -> (order: Seq<usize>)
    requires
        0 <= n <= keys.len() <= usize::MAX,
    ensures
        is_order(keys.take(n), order),
    decreases n,
{
    if n == 0 {
        Seq::empty()
    } else {
        let row = n - 1;
        let before = order_up_to(keys, row);
        let at = place_for(keys, before, row, row);
        let order = before.insert(at, row as usize);
        let now = keys.take(n);
        let old_keys = keys.take(row);
        assert forall|i: int| 0 <= i < before.len() implies (#[trigger] before[i]) < row by {}
        assert forall|i: int, j: int| 0 <= i < j < before.len() implies row_before(
            keys,
            before[i] as int,
            before[j] as int,
        ) by {
            assert(row_before(old_keys, before[i] as int, before[j] as int));
        }
        assert forall|i: int| 0 <= i < order.len() implies (#[trigger] order[i]) < now.len() by {
            if i < at {
                assert(order[i] == before[i]);
            } else if i > at {
                assert(order[i] == before[i - 1]);
            }
        }
        assert forall|i: int, j: int| 0 <= i < j < order.len() implies row_before(
            now,
            order[i] as int,
            order[j] as int,
        ) by {
            let a = if i < at {
                i
            } else {
                i - 1
            };
            let b = if j < at {
                j
            } else {
                j - 1
            };
            if i != at {
                assert(order[i] == before[a]);
            }
            if j != at {
                assert(order[j] == before[b]);
            }
            if i != at && j != at {
                assert(row_before(keys, before[a] as int, before[b] as int));
            } else if i == at {
                assert(row_before(keys, row, before[b] as int));
            } else {
                assert(row_before(keys, before[a] as int, row));
            }
        }
        order
    }
}

/// The place at which a further row is put in an order: behind all rows that come before it.
proof fn place_for(keys: Seq<Seq<i64>>, order: Seq<usize>, row: int, len: int) -> (at: int)
    requires
        0 <= len <= order.len() == row < keys.len() <= usize::MAX,
        is_order(keys.take(row), order),
    ensures
        0 <= at <= len,
        forall|k: int| 0 <= k < at ==> row_before(keys, #[trigger] order[k] as int, row),
        forall|k: int| at <= k < len ==> row_before(keys, row, #[trigger] order[k] as int),
    decreases len,
{
    if len == 0 {
        0
    } else {
        let last = order[len - 1] as int;
        assert(last < row);
        keys_are_totally_ordered(keys[last], keys[row]);
        if row_before(keys, last, row) {
            assert forall|k: int| 0 <= k < len implies row_before(
                keys,
                #[trigger] order[k] as int,
                row,
            ) by {
                if k < len - 1 {
                    let other = order[k] as int;
                    assert(row_before(keys.take(row), other, last));
                    assert(other < row);
                    if key_before(keys[other], keys[last]) && key_before(keys[last], keys[row]) {
                        key_order_is_transitive(keys[other], keys[last], keys[row]);
                    }
                }
            }
            len
        } else {
            place_for(keys, order, row, len - 1)
        }
    }
}

} // verus!
