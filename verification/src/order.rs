//! The order of episode labels, in the form that sorting takes.
use crate::label::{label_order, label_order_chars, LabelOrder};
use crate::text::chars_of;
use std::cmp::Ordering;
use vstd::prelude::*;

verus! {

/// Compares two episode labels: a label that writes a number comes before
/// one that writes none, two numbers stand in their own order, and two
/// labels without a number in the order of their texts.
pub fn compare_episode_labels(a: &str, b: &str) -> (out: Ordering)
    ensures
        match label_order(a@, b@) {
            LabelOrder::Less => out is Less,
            LabelOrder::Equal => out is Equal,
            LabelOrder::Greater => out is Greater,
        },
{
    let x = chars_of(a);
    let y = chars_of(b);
    match label_order_chars(x.as_slice(), y.as_slice()) {
        LabelOrder::Less => Ordering::Less,
        LabelOrder::Equal => Ordering::Equal,
        LabelOrder::Greater => Ordering::Greater,
    }
}

} // verus!
