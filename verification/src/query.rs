//! Generic substring queries over anything that carries a display name.
//!
//! Level scripts never hold direct entity references; they look
//! entities up by name fragments. These helpers filter any list of
//! named items down to those whose name contains a pattern, preserving
//! the underlying order, or find the first such item.

use vstd::prelude::*;

use crate::button::ButtonRef;
use crate::door::DoorRecord;
use crate::text::{contains_seq, str_contains};
use crate::trigger::{TriggerEnterEvent, TriggerExitEvent, TriggerRef};

verus! {

/// Something with an optional display name.
pub trait Named {
    /// The name's characters, when there is one.
    spec fn spec_name(&self) -> Option<Seq<char>>;

    /// The display name.
    fn name(&self) -> (r: Option<&str>)
        ensures
            r matches Some(s) ==> self.spec_name() == Some(s@),
            r is None ==> self.spec_name() is None,
    ;
}

/// Whether an item's name contains `pat`.
pub open spec fn name_matches<T: Named>(item: T, pat: Seq<char>) -> bool {
    match item.spec_name() {
        Some(n) => contains_seq(n, pat),
        None => false,
    }
}

/// The positions, in order, of every item whose name contains `pat`.
///
/// The result lists exactly the matching positions, strictly
/// ascending, so the caller walks the matches in the underlying order.
pub fn filter_name_contains<T: Named>(items: &Vec<T>, pat: &str) -> (r: Vec<usize>)
    ensures
        forall|a: int, b: int| 0 <= a < b < r@.len() ==> r@[a] < r@[b],
        forall|a: int|
            0 <= a < r@.len() ==> r@[a] < items@.len() && name_matches(
                items@[#[trigger] r@[a] as int],
                pat@,
            ),
        forall|k: int|
            0 <= k < items@.len() && name_matches(#[trigger] items@[k], pat@) ==> r@.contains(
                k as usize,
            ),
{
    let mut out: Vec<usize> = Vec::new();
    let n = items.len();
    let mut i: usize = 0;
    while i < n
        invariant
            n == items@.len(),
            0 <= i <= n,
            forall|a: int, b: int| 0 <= a < b < out@.len() ==> out@[a] < out@[b],
            forall|a: int|
                0 <= a < out@.len() ==> out@[a] < i && name_matches(
                    items@[#[trigger] out@[a] as int],
                    pat@,
                ),
            forall|k: int|
                0 <= k < i && name_matches(#[trigger] items@[k], pat@) ==> out@.contains(
                    k as usize,
                ),
        decreases n - i,
    {
        let matched = match items[i].name() {
            Some(s) => str_contains(s, pat),
            None => false,
        };
        let ghost before = out@;
        if matched {
            out.push(i);
        }
        proof {
            assert forall|k: int|
                0 <= k < i + 1 && name_matches(#[trigger] items@[k], pat@) implies out@.contains(
                k as usize,
            ) by {
                if k < i {
                    let a = choose|a: int| 0 <= a < before.len() && before[a] == k as usize;
                    assert(out@[a] == k as usize);
                } else {
                    assert(out@[out@.len() - 1] == k as usize);
                }
            }
        }
        i += 1;
    }
    out
}

/// The position of the first item whose name contains `pat`.
pub fn find_named<T: Named>(items: &Vec<T>, pat: &str) -> (r: Option<usize>)
    ensures
        match r {
            Some(i) => i < items@.len() && name_matches(items@[i as int], pat@) && forall|k: int|
                0 <= k < i ==> !name_matches(#[trigger] items@[k], pat@),
            None => forall|k: int|
                0 <= k < items@.len() ==> !name_matches(#[trigger] items@[k], pat@),
        },
{
    let n = items.len();
    let mut i: usize = 0;
    while i < n
        invariant
            n == items@.len(),
            0 <= i <= n,
            forall|k: int| 0 <= k < i ==> !name_matches(#[trigger] items@[k], pat@),
        decreases n - i,
    {
        let matched = match items[i].name() {
            Some(s) => str_contains(s, pat),
            None => false,
        };
        if matched {
            return Some(i);
        }
        i += 1;
    }
    None
}

impl Named for DoorRecord {
    open spec fn spec_name(&self) -> Option<Seq<char>> {
        match self.name {
            Some(n) => Some(n@),
            None => None,
        }
    }

    fn name(&self) -> (r: Option<&str>) {
        match &self.name {
            Some(n) => Some(n.as_str()),
            None => None,
        }
    }
}

impl Named for ButtonRef {
    open spec fn spec_name(&self) -> Option<Seq<char>> {
        match self.name {
            Some(n) => Some(n@),
            None => None,
        }
    }

    fn name(&self) -> (r: Option<&str>) {
        match &self.name {
            Some(n) => Some(n.as_str()),
            None => None,
        }
    }
}

impl Named for TriggerRef {
    open spec fn spec_name(&self) -> Option<Seq<char>> {
        match self.name {
            Some(n) => Some(n@),
            None => None,
        }
    }

    fn name(&self) -> (r: Option<&str>) {
        match &self.name {
            Some(n) => Some(n.as_str()),
            None => None,
        }
    }
}

impl Named for TriggerEnterEvent {
    open spec fn spec_name(&self) -> Option<Seq<char>> {
        match self.name {
            Some(n) => Some(n@),
            None => None,
        }
    }

    fn name(&self) -> (r: Option<&str>) {
        match &self.name {
            Some(n) => Some(n.as_str()),
            None => None,
        }
    }
}

impl Named for TriggerExitEvent {
    open spec fn spec_name(&self) -> Option<Seq<char>> {
        match self.name {
            Some(n) => Some(n@),
            None => None,
        }
    }

    fn name(&self) -> (r: Option<&str>) {
        match &self.name {
            Some(n) => Some(n.as_str()),
            None => None,
        }
    }
}

} // verus!
