//! Orders used to rank versions and texts, with their algebraic properties.
//!
//! An order value is `-1`, `0` or `1`, as `Ordering::Less`, `Equal`, `Greater`.
use vstd::prelude::*;

use crate::text::chars_of;

verus! {

/// Lexicographic order of two texts by code point (the order of `str::cmp`,
/// since UTF-8 preserves code point order byte-wise).
pub open spec fn text_order(a: Seq<char>, b: Seq<char>) -> int
    decreases a.len(),
{
    if a.len() == 0 && b.len() == 0 {
        0
    } else if a.len() == 0 {
        -1
    } else if b.len() == 0 {
        1
    } else if a[0] < b[0] {
        -1
    } else if a[0] > b[0] {
        1
    } else {
        text_order(a.skip(1), b.skip(1))
    }
}

pub open spec fn head_or_zero(x: Seq<u32>) -> u32 {
    if x.len() > 0 {
        x[0]
    } else {
        0u32
    }
}

pub open spec fn tail_or_empty(x: Seq<u32>) -> Seq<u32> {
    if x.len() > 0 {
        x.skip(1)
    } else {
        x
    }
}

/// Compares two lists of numbers position by position, a missing position
/// counting as `0`.
pub open spec fn padded_order(x: Seq<u32>, y: Seq<u32>) -> int
    decreases x.len() + y.len(),
{
    if x.len() == 0 && y.len() == 0 {
        0
    } else if head_or_zero(x) < head_or_zero(y) {
        -1
    } else if head_or_zero(x) > head_or_zero(y) {
        1
    } else {
        padded_order(tail_or_empty(x), tail_or_empty(y))
    }
}

/// Lexicographic order of two lists of numbers, a proper prefix being smaller
/// (the order of `Vec<u64>`).
pub open spec fn list_order(x: Seq<u64>, y: Seq<u64>) -> int
    decreases x.len(),
{
    if x.len() == 0 && y.len() == 0 {
        0
    } else if x.len() == 0 {
        -1
    } else if y.len() == 0 {
        1
    } else if x[0] < y[0] {
        -1
    } else if x[0] > y[0] {
        1
    } else {
        list_order(x.skip(1), y.skip(1))
    }
}

pub proof fn lemma_text_order_antisym(a: Seq<char>, b: Seq<char>)
    ensures
        text_order(a, b) == -text_order(b, a),
        -1 <= text_order(a, b) <= 1,
    decreases a.len(),
{
    if a.len() > 0 && b.len() > 0 && a[0] == b[0] {
        lemma_text_order_antisym(a.skip(1), b.skip(1));
    }
}

pub proof fn lemma_text_order_eq(a: Seq<char>, b: Seq<char>)
    ensures
        text_order(a, b) == 0 <==> a == b,
    decreases a.len(),
{
    if a.len() == 0 && b.len() == 0 {
        assert(a =~= b);
    }
    if a.len() > 0 && b.len() > 0 && a[0] == b[0] {
        lemma_text_order_eq(a.skip(1), b.skip(1));
        if a.skip(1) == b.skip(1) {
            assert(a =~= seq![a[0]] + a.skip(1));
            assert(b =~= seq![b[0]] + b.skip(1));
        }
        if a == b {
            assert(a.skip(1) =~= b.skip(1));
        }
    }
}

pub proof fn lemma_text_order_trans(a: Seq<char>, b: Seq<char>, c: Seq<char>)
    requires
        text_order(a, b) <= 0,
        text_order(b, c) <= 0,
    ensures
        text_order(a, c) <= 0,
        text_order(a, b) < 0 || text_order(b, c) < 0 ==> text_order(a, c) < 0,
    decreases a.len(),
{
    if a.len() > 0 && b.len() > 0 && c.len() > 0 && a[0] == b[0] && b[0] == c[0] {
        lemma_text_order_trans(a.skip(1), b.skip(1), c.skip(1));
    }
}

proof fn lemma_padded_order_antisym(x: Seq<u32>, y: Seq<u32>)
    ensures
        padded_order(x, y) == -padded_order(y, x),
        -1 <= padded_order(x, y) <= 1,
    decreases x.len() + y.len(),
{
    if !(x.len() == 0 && y.len() == 0) && head_or_zero(x) == head_or_zero(y) {
        lemma_padded_order_antisym(tail_or_empty(x), tail_or_empty(y));
    }
}

proof fn lemma_padded_order_trans(x: Seq<u32>, y: Seq<u32>, z: Seq<u32>)
    requires
        padded_order(x, y) <= 0,
        padded_order(y, z) <= 0,
    ensures
        padded_order(x, z) <= 0,
        padded_order(x, y) < 0 || padded_order(y, z) < 0 ==> padded_order(x, z) < 0,
    decreases x.len() + y.len() + z.len(),
{
    if x.len() == 0 && y.len() == 0 && z.len() == 0 {
    } else if head_or_zero(x) == head_or_zero(y) && head_or_zero(y) == head_or_zero(z) {
        let (tx, ty, tz) = (tail_or_empty(x), tail_or_empty(y), tail_or_empty(z));
        if x.len() == 0 && y.len() == 0 {
            assert(x =~= y);
            assert(padded_order(x, z) == padded_order(y, z));
        } else if y.len() == 0 && z.len() == 0 {
            assert(y =~= z);
            assert(padded_order(x, z) == padded_order(x, y));
        } else if x.len() == 0 && z.len() == 0 {
            lemma_padded_order_antisym(x, y);
            lemma_padded_order_antisym(y, z);
            lemma_padded_order_antisym(tx, ty);
            lemma_padded_order_antisym(ty, tz);
            lemma_padded_order_trans(tx, ty, tz);
        } else {
            lemma_padded_order_trans(tx, ty, tz);
        }
    }
}

proof fn lemma_list_order_antisym(x: Seq<u64>, y: Seq<u64>)
    ensures
        list_order(x, y) == -list_order(y, x),
        -1 <= list_order(x, y) <= 1,
    decreases x.len(),
{
    if x.len() > 0 && y.len() > 0 && x[0] == y[0] {
        lemma_list_order_antisym(x.skip(1), y.skip(1));
    }
}

proof fn lemma_list_order_trans(x: Seq<u64>, y: Seq<u64>, z: Seq<u64>)
    requires
        list_order(x, y) <= 0,
        list_order(y, z) <= 0,
    ensures
        list_order(x, z) <= 0,
        list_order(x, y) < 0 || list_order(y, z) < 0 ==> list_order(x, z) < 0,
    decreases x.len(),
{
    if x.len() > 0 && y.len() > 0 && z.len() > 0 && x[0] == y[0] && y[0] == z[0] {
        lemma_list_order_trans(x.skip(1), y.skip(1), z.skip(1));
    }
}

/// Two orders combined: the first decides, the second breaks ties.
pub open spec fn then_order(first: int, second: int) -> int {
    if first != 0 {
        first
    } else {
        second
    }
}

pub proof fn lemma_padded_then_text(
    x: Seq<u32>,
    y: Seq<u32>,
    z: Seq<u32>,
    a: Seq<char>,
    b: Seq<char>,
    c: Seq<char>,
)
    ensures
        -1 <= then_order(padded_order(x, y), text_order(a, b)) <= 1,
        then_order(padded_order(x, y), text_order(a, b)) == -then_order(
            padded_order(y, x),
            text_order(b, a),
        ),
        then_order(padded_order(x, y), text_order(a, b)) <= 0 && then_order(
            padded_order(y, z),
            text_order(b, c),
        ) <= 0 ==> then_order(padded_order(x, z), text_order(a, c)) <= 0,
        then_order(padded_order(x, y), text_order(a, b)) < 0 && then_order(
            padded_order(y, z),
            text_order(b, c),
        ) <= 0 ==> then_order(padded_order(x, z), text_order(a, c)) < 0,
{
    lemma_padded_order_antisym(x, y);
    lemma_padded_order_antisym(y, z);
    lemma_padded_order_antisym(x, z);
    lemma_text_order_antisym(a, b);
    lemma_text_order_antisym(b, c);
    lemma_text_order_antisym(a, c);
    if padded_order(x, y) <= 0 && padded_order(y, z) <= 0 {
        lemma_padded_order_trans(x, y, z);
    }
    if text_order(a, b) <= 0 && text_order(b, c) <= 0 {
        lemma_text_order_trans(a, b, c);
    }
}

pub proof fn lemma_list_then_text(
    x: Seq<u64>,
    y: Seq<u64>,
    z: Seq<u64>,
    a: Seq<char>,
    b: Seq<char>,
    c: Seq<char>,
)
    ensures
        -1 <= then_order(list_order(x, y), text_order(a, b)) <= 1,
        then_order(list_order(x, y), text_order(a, b)) == -then_order(
            list_order(y, x),
            text_order(b, a),
        ),
        then_order(list_order(x, y), text_order(a, b)) <= 0 && then_order(
            list_order(y, z),
            text_order(b, c),
        ) <= 0 ==> then_order(list_order(x, z), text_order(a, c)) <= 0,
        then_order(list_order(x, y), text_order(a, b)) < 0 && then_order(
            list_order(y, z),
            text_order(b, c),
        ) <= 0 ==> then_order(list_order(x, z), text_order(a, c)) < 0,
{
    lemma_list_order_antisym(x, y);
    lemma_list_order_antisym(y, z);
    lemma_list_order_antisym(x, z);
    lemma_text_order_antisym(a, b);
    lemma_text_order_antisym(b, c);
    lemma_text_order_antisym(a, c);
    if list_order(x, y) <= 0 && list_order(y, z) <= 0 {
        lemma_list_order_trans(x, y, z);
    }
    if text_order(a, b) <= 0 && text_order(b, c) <= 0 {
        lemma_text_order_trans(a, b, c);
    }
}

/// Text order of two character vectors (`str::cmp`).
pub fn text_order_exec(a: &Vec<char>, b: &Vec<char>) -> (r: i8)
    ensures
        r == text_order(a@, b@),
{
    let mut i: usize = 0;
    assert(a@.skip(0) =~= a@);
    assert(b@.skip(0) =~= b@);
    while i < a.len() && i < b.len()
        invariant
            i <= a.len(),
            i <= b.len(),
            text_order(a@, b@) == text_order(a@.skip(i as int), b@.skip(i as int)),
        decreases a.len() - i,
    {
        if a[i] < b[i] {
            return -1;
        }
        if a[i] > b[i] {
            return 1;
        }
        assert(a@.skip(i as int).skip(1) =~= a@.skip(i + 1));
        assert(b@.skip(i as int).skip(1) =~= b@.skip(i + 1));
        i += 1;
    }
    if a.len() == b.len() {
        0
    } else if a.len() < b.len() {
        -1
    } else {
        1
    }
}

/// `a.cmp(b)` for string slices.
pub fn text_order_str(a: &str, b: &str) -> (r: i8)
    ensures
        r == text_order(a@, b@),
{
    let av = chars_of(a);
    let bv = chars_of(b);
    text_order_exec(&av, &bv)
}

pub open spec fn suffix_from(x: Seq<u32>, i: int) -> Seq<u32> {
    if i < x.len() {
        x.skip(i)
    } else {
        Seq::empty()
    }
}

/// Compares two lists of numbers position by position, missing positions being `0`.
pub fn padded_order_exec(x: &Vec<u32>, y: &Vec<u32>) -> (r: i8)
    ensures
        r == padded_order(x@, y@),
{
    let mut i: usize = 0;
    let n = if x.len() > y.len() {
        x.len()
    } else {
        y.len()
    };
    assert(suffix_from(x@, 0) =~= x@) by {
        if x@.len() == 0 {
        }
    }
    assert(suffix_from(y@, 0) =~= y@) by {
        if y@.len() == 0 {
        }
    }
    while i < n
        invariant
            i <= n,
            n == x.len() || n == y.len(),
            x.len() <= n,
            y.len() <= n,
            padded_order(x@, y@) == padded_order(suffix_from(x@, i as int), suffix_from(y@, i as int)),
        decreases n - i,
    {
        let ghost xs = suffix_from(x@, i as int);
        let ghost ys = suffix_from(y@, i as int);
        let xv = if i < x.len() {
            x[i]
        } else {
            0
        };
        let yv = if i < y.len() {
            y[i]
        } else {
            0
        };
        assert(!(xs.len() == 0 && ys.len() == 0));
        assert(head_or_zero(xs) == xv);
        assert(head_or_zero(ys) == yv);
        if xv < yv {
            return -1;
        }
        if xv > yv {
            return 1;
        }
        assert(tail_or_empty(xs) =~= suffix_from(x@, i + 1));
        assert(tail_or_empty(ys) =~= suffix_from(y@, i + 1));
        i += 1;
    }
    assert(suffix_from(x@, i as int).len() == 0);
    assert(suffix_from(y@, i as int).len() == 0);
    0
}

} // verus!
