//! Episode labels: texts that may write a number. Two labels match when
//! they are the same text or write numbers less than a millionth apart;
//! labels are ordered with the numbers first.
use crate::decimal::{
    below, compare_decimals, decimal_of, read_decimal, same_number, within_a_millionth,
    Decimal, Numeral,
};
use crate::number::{bounded_value, parse_u32_chars};
use crate::text::{chars_eq, chars_of, trim, trim_bounds};
use vstd::prelude::*;
use vstd::slice::slice_subrange;

verus! {

/// How one label stands to another.
#[derive(Debug, Clone, Copy, PartialEq, Eq, Structural)]
pub enum LabelOrder {
    Less,
    Equal,
    Greater,
}

/// The number that a label writes, if it writes one: its text, trimmed, read
/// as a decimal numeral.
pub open spec fn label_number(label: Seq<char>) -> Option<Decimal> {
    decimal_of(trim(label))
}

/// The whole number that a label writes, if it writes one that fits 32 bits.
pub open spec fn label_u32(label: Seq<char>) -> Option<nat> {
    bounded_value(trim(label), u32::MAX as nat)
}

/// Two labels match: trimmed they are the same text, or both write numbers
/// and these differ by less than a millionth.
pub open spec fn labels_match(a: Seq<char>, b: Seq<char>) -> bool {
    ||| trim(a) == trim(b)
    ||| match (label_number(a), label_number(b)) {
        (Some(x), Some(y)) => within_a_millionth(x, y),
        _ => false,
    }
}

/// Position `i` is where two texts first differ, or where the shorter ends.
pub open spec fn is_first_difference(a: Seq<char>, b: Seq<char>, i: int) -> bool {
    &&& 0 <= i <= a.len() && i <= b.len()
    &&& a.take(i) == b.take(i)
    &&& i == a.len() || i == b.len() || a[i] != b[i]
}

/// The order of two texts by their characters, the shorter first where one
/// begins the other.
pub open spec fn text_order(a: Seq<char>, b: Seq<char>) -> LabelOrder {
    let i = choose|i: int| is_first_difference(a, b, i);
    if i == a.len() && i == b.len() {
        LabelOrder::Equal
    } else if i == a.len() {
        LabelOrder::Less
    } else if i == b.len() {
        LabelOrder::Greater
    } else if a[i] < b[i] {
        LabelOrder::Less
    } else {
        LabelOrder::Greater
    }
}

/// The order of two labels: a label that writes a number comes before one
/// that writes none, two numbers stand in their own order, and two labels
/// without a number in the order of their texts.
#[verifier::opaque]
pub open spec fn label_order(a: Seq<char>, b: Seq<char>) -> LabelOrder {
    match (label_number(a), label_number(b)) {
        (Some(x), Some(y)) => if below(x, y) {
            LabelOrder::Less
        } else if same_number(x, y) {
            LabelOrder::Equal
        } else {
            LabelOrder::Greater
        },
        (Some(_), None) => LabelOrder::Less,
        (None, Some(_)) => LabelOrder::Greater,
        (None, None) => text_order(a, b),
    }
}

/// Reads the number of a label.
pub fn read_label_number(label: &[char]) -> (r: Option<Numeral>)
    ensures
        match r {
            Some(n) => label_number(label@) == Some(n@) && n.wf(),
            None => label_number(label@) is None,
        },
{
    let (a, b) = trim_bounds(label);
    read_decimal(slice_subrange(label, a, b))
}

/// Reads the whole number of a label.
pub fn read_label_u32(label: &[char]) -> (r: Option<u32>)
    ensures
        match r {
            Some(n) => label_u32(label@) == Some(n as nat),
            None => label_u32(label@) is None,
        },
{
    let (a, b) = trim_bounds(label);
    parse_u32_chars(slice_subrange(label, a, b))
}

/// Whether two labels match.
pub fn labels_match_chars(a: &[char], b: &[char]) -> (r: bool)
    ensures
        r == labels_match(a@, b@),
{
    let (a0, a1) = trim_bounds(a);
    let (b0, b1) = trim_bounds(b);
    let left = slice_subrange(a, a0, a1);
    let right = slice_subrange(b, b0, b1);
    if chars_eq(left, right) {
        return true;
    }
    match (read_decimal(left), read_decimal(right)) {
        (Some(x), Some(y)) => compare_decimals(&x, &y).near,
        _ => false,
    }
}

/// The order of two texts by their characters.
pub fn text_order_chars(a: &[char], b: &[char]) -> (r: LabelOrder)
    ensures
        r == text_order(a@, b@),
{
    let mut i: usize = 0;
    assert(a@.take(0) =~= b@.take(0));
    while i < a.len() && i < b.len() && a[i] == b[i]
        invariant
            i <= a.len(),
            i <= b.len(),
            a@.take(i as int) == b@.take(i as int),
        decreases a.len() - i,
    {
        i += 1;
        assert(a@.take(i as int) =~= a@.take(i - 1).push(a@[i - 1]));
        assert(b@.take(i as int) =~= b@.take(i - 1).push(b@[i - 1]));
    }
    proof {
        assert(is_first_difference(a@, b@, i as int));
        let c = choose|c: int| is_first_difference(a@, b@, c);
        if c < i {
            assert(a@.take(i as int)[c] == b@.take(i as int)[c]);
        }
        if c > i {
            assert(a@.take(c)[i as int] == b@.take(c)[i as int]);
        }
        assert(c == i);
    }
    if i == a.len() && i == b.len() {
        LabelOrder::Equal
    } else if i == a.len() {
        LabelOrder::Less
    } else if i == b.len() {
        LabelOrder::Greater
    } else if a[i] < b[i] {
        LabelOrder::Less
    } else {
        LabelOrder::Greater
    }
}

/// The order of two labels.
pub fn label_order_chars(a: &[char], b: &[char]) -> (r: LabelOrder)
    ensures
        r == label_order(a@, b@),
{
    proof {
        reveal(label_order);
    }
    match (read_label_number(a), read_label_number(b)) {
        (Some(x), Some(y)) => {
            let rel = compare_decimals(&x, &y);
            if rel.below {
                LabelOrder::Less
            } else if rel.same {
                LabelOrder::Equal
            } else {
                LabelOrder::Greater
            }
        },
        (Some(_), None) => LabelOrder::Less,
        (None, Some(_)) => LabelOrder::Greater,
        (None, None) => text_order_chars(a, b),
    }
}

/// Two labels match when, trimmed, they are the same text, or when both write
/// numbers that differ by less than a millionth: `1` matches `1.0`.
pub fn episode_labels_match(a: &str, b: &str) -> (r: bool)
    ensures
        r == labels_match(a@, b@),
{
    let x = chars_of(a);
    let y = chars_of(b);
    labels_match_chars(x.as_slice(), y.as_slice())
}

/// The whole number of a label, where its trimmed text is an unsigned decimal
/// numeral that fits 32 bits.
pub fn parse_episode_u32(ep: &str) -> (r: Option<u32>)
    ensures
        match r {
            Some(n) => label_u32(ep@) == Some(n as nat),
            None => label_u32(ep@) is None,
        },
{
    let x = chars_of(ep);
    read_label_u32(x.as_slice())
}

/// Every label matches itself, and whether two labels match does not depend
/// on their order.
pub proof fn lemma_match_is_even_handed(a: Seq<char>, b: Seq<char>)
    ensures
        labels_match(a, a),
        labels_match(a, b) == labels_match(b, a),
{
    match (label_number(a), label_number(b)) {
        (Some(x), Some(y)) => {
            assert(crate::decimal::common_places(x, y) == crate::decimal::common_places(y, x));
        },
        _ => {},
    }
}

/// Two labels that write the same number match, however they write it.
pub proof fn lemma_same_number_matches(a: Seq<char>, b: Seq<char>)
    requires
        label_number(a) is Some,
        label_number(b) is Some,
        same_number(label_number(a)->0, label_number(b)->0),
    ensures
        labels_match(a, b),
{
    let x = label_number(a)->0;
    let y = label_number(b)->0;
    let p = crate::decimal::common_places(x, y);
    lemma_pow10_positive((p - 6) as nat);
}

/// A power of ten is at least one.
pub proof fn lemma_pow10_positive(k: nat)
    ensures
        crate::decimal::pow10(k) >= 1,
    decreases k,
{
    if k > 0 {
        lemma_pow10_positive((k - 1) as nat);
    }
}

proof fn lemma_first_difference_exists(a: Seq<char>, b: Seq<char>, k: int)
    requires
        0 <= k <= a.len(),
        k <= b.len(),
        a.take(k) == b.take(k),
    ensures
        exists|i: int| is_first_difference(a, b, i),
    decreases a.len() - k,
{
    if k == a.len() || k == b.len() || a[k] != b[k] {
        assert(is_first_difference(a, b, k));
    } else {
        assert(a.take(k + 1) =~= a.take(k).push(a[k]));
        assert(b.take(k + 1) =~= b.take(k).push(b[k]));
        lemma_first_difference_exists(a, b, k + 1);
    }
}

proof fn lemma_first_difference_is_one(a: Seq<char>, b: Seq<char>, i: int, j: int)
    requires
        is_first_difference(a, b, i),
        is_first_difference(a, b, j),
    ensures
        i == j,
{
    if i < j {
        assert(a.take(j)[i] == b.take(j)[i]);
    }
    if j < i {
        assert(a.take(i)[j] == b.take(i)[j]);
    }
}

/// Where one label stands after another, the other stands before the one.
pub proof fn lemma_order_turns(a: Seq<char>, b: Seq<char>)
    ensures
        label_order(a, b) is Greater <==> label_order(b, a) is Less,
        label_order(a, b) is Equal <==> label_order(b, a) is Equal,
{
    reveal(label_order);
    match (label_number(a), label_number(b)) {
        (Some(x), Some(y)) => {
            assert(crate::decimal::common_places(x, y) == crate::decimal::common_places(y, x));
        },
        (None, None) => {
            assert(a.take(0) =~= b.take(0));
            lemma_first_difference_exists(a, b, 0);
            lemma_first_difference_exists(b, a, 0);
            let i = choose|i: int| is_first_difference(a, b, i);
            let j = choose|j: int| is_first_difference(b, a, j);
            assert(is_first_difference(a, b, j));
            lemma_first_difference_is_one(a, b, i, j);
        },
        _ => {},
    }
}

} // verus!
