//! The loosely typed form of one snapshot entry: an unordered map from field
//! names to JSON-like values, one level of nesting deep.

use vstd::prelude::*;
use crate::text::str_eq;

verus! {

/// A value nested inside an object field (such as the members of `options`).
#[derive(Clone, Debug, PartialEq, Eq)]
pub enum WireScalar {
    Null,
    Bool(bool),
    /// A non-negative integer.
    Unsigned(u64),
    /// A negative integer.
    Signed(i64),
    /// A number with a fractional part or an exponent.
    Fractional,
    Text(String),
    /// An array or an object; its contents are not kept.
    Compound,
}

/// A top-level field value of a snapshot entry.
#[derive(Clone, Debug, PartialEq, Eq)]
pub enum WireValue {
    Null,
    Bool(bool),
    /// A non-negative integer.
    Unsigned(u64),
    /// A negative integer.
    Signed(i64),
    /// A number with a fractional part or an exponent.
    Fractional,
    Text(String),
    /// An array; its contents are not kept.
    List,
    /// An object, as its fields.
    Object(Vec<(String, WireScalar)>),
}

/// One snapshot entry: its fields, in any order.
pub type WireMap = Vec<(String, WireValue)>;

/// The value stored under `key`. Where a key occurs more than once, the last
/// occurrence counts, as when the pairs are inserted into a map in order.
pub open spec fn lookup<V>(m: Seq<(String, V)>, key: Seq<char>) -> Option<V>
    decreases m.len(),
{
    if m.len() == 0 {
        None
    } else if m.last().0@ == key {
        Some(m.last().1)
    } else {
        lookup(m.drop_last(), key)
    }
}

/// Finds the position whose value `lookup` reports for `key`.
pub fn find_field<V>(m: &Vec<(String, V)>, key: &str) -> (r: Option<usize>)
    ensures
        r.is_none() ==> lookup(m@, key@).is_none(),
        r.is_some() ==> r.unwrap() < m@.len() && lookup(m@, key@) == Some(m@[r.unwrap() as int].1),
{
    let mut i: usize = m.len();
    assert(m@.take(i as int) =~= m@);
    while i > 0
        invariant
            i <= m@.len(),
            lookup(m@, key@) == lookup(m@.take(i as int), key@),
        decreases i,
    {
        let ghost pre = m@.take(i as int);
        assert(pre.drop_last() =~= m@.take(i - 1));
        if str_eq(m[i - 1].0.as_str(), key) {
            return Some(i - 1);
        }
        i = i - 1;
    }
    None
}

} // verus!
