//! Three-way comparison of version strings, and the laws of the orders.
use std::cmp::Ordering;
use vstd::prelude::*;

use crate::java::{java_version_order, java_version_order_value};
use crate::order::{
    lemma_padded_then_text, lemma_text_order_antisym, lemma_text_order_eq,
    lemma_text_order_trans, text_order,
};
use crate::version_parts::{numeric_parts, version_order, version_order_value};

verus! {

/// `Less`, `Equal`, `Greater` as `-1`, `0`, `1`.
pub open spec fn ordering_value(o: Ordering) -> int {
    match o {
        Ordering::Less => -1,
        Ordering::Equal => 0,
        Ordering::Greater => 1,
    }
}

pub fn ordering_from_value(v: i8) -> (o: Ordering)
    requires
        -1 <= v <= 1,
    ensures
        ordering_value(o) == v,
{
    if v < 0 {
        Ordering::Less
    } else if v == 0 {
        Ordering::Equal
    } else {
        Ordering::Greater
    }
}

/// Orders two versions numerically; identical numeric parts fall back to the text order.
pub fn compare_versions(a: &str, b: &str) -> (r: Ordering)
    ensures
        ordering_value(r) == version_order(a@, b@),
{
    proof {
        version_order_is_total(a@, b@, b@);
    }
    ordering_from_value(version_order_value(a, b))
}

/// Compares two Java version strings by `(major, minor, patch, build)`; every
/// string has a reading, so the result is always `Some`.
pub fn compare_java_versions(left: &str, right: &str) -> (r: Option<Ordering>)
    ensures
        r.is_some(),
        ordering_value(r.unwrap()) == java_version_order(left@, right@),
{
    Some(ordering_from_value(java_version_order_value(left, right)))
}

/// The Java version order is a total preorder on the readings of versions:
/// antisymmetric and transitive.
pub proof fn java_version_order_is_preorder(a: Seq<char>, b: Seq<char>, c: Seq<char>)
    ensures
        -1 <= java_version_order(a, b) <= 1,
        java_version_order(a, a) == 0,
        java_version_order(a, b) == -java_version_order(b, a),
        java_version_order(a, b) <= 0 && java_version_order(b, c) <= 0 ==> java_version_order(a, c)
            <= 0,
        java_version_order(a, b) < 0 && java_version_order(b, c) <= 0 ==> java_version_order(a, c)
            < 0,
{
}

/// The version order is a total order: it is antisymmetric, transitive, and
/// it calls two versions equal only when they are the same text.
pub proof fn version_order_is_total(a: Seq<char>, b: Seq<char>, c: Seq<char>)
    ensures
        -1 <= version_order(a, b) <= 1,
        version_order(a, b) == -version_order(b, a),
        version_order(a, b) == 0 <==> a == b,
        version_order(a, b) <= 0 && version_order(b, c) <= 0 ==> version_order(a, c) <= 0,
        version_order(a, b) < 0 && version_order(b, c) <= 0 ==> version_order(a, c) < 0,
{
    lemma_padded_then_text(numeric_parts(a), numeric_parts(b), numeric_parts(c), a, b, c);
    lemma_text_order_eq(a, b);
    if a == b {
        assert(numeric_parts(a) == numeric_parts(b));
        lemma_padded_then_text(numeric_parts(a), numeric_parts(a), numeric_parts(a), a, a, a);
    }
}

/// The text order is a total order.
pub proof fn text_order_is_total(a: Seq<char>, b: Seq<char>, c: Seq<char>)
    ensures
        text_order(a, b) == -text_order(b, a),
        text_order(a, b) == 0 <==> a == b,
        text_order(a, b) <= 0 && text_order(b, c) <= 0 ==> text_order(a, c) <= 0,
        text_order(a, b) < 0 && text_order(b, c) <= 0 ==> text_order(a, c) < 0,
{
    lemma_text_order_antisym(a, b);
    lemma_text_order_eq(a, b);
    if text_order(a, b) <= 0 && text_order(b, c) <= 0 {
        lemma_text_order_trans(a, b, c);
    }
}

} // verus!
