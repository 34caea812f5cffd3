//! Finds which dialect a project document declares on its tags: the value
//! of the first `xmlns` or `sdk` attribute. Classification does not use it.

use crate::scanner::{is_terminal, is_terminal_event, Attribute, ScanEvent};
use crate::text::{eq_ignore_ascii_case, same_ignoring_ascii_case};
use vstd::prelude::*;

verus! {

/// `a` is an attribute keyed `xmlns` or `sdk`, in any ASCII case.
pub open spec fn is_dialect_attribute(a: Option<Attribute>) -> bool {
    match a {
        Some(x) => same_ignoring_ascii_case(x.key@, "xmlns"@) || same_ignoring_ascii_case(
            x.key@,
            "sdk"@,
        ),
        None => false,
    }
}

/// The value of the first dialect attribute among `attrs`.
pub open spec fn first_dialect_value(attrs: Seq<Option<Attribute>>) -> Option<Seq<char>>
    decreases attrs.len(),
{
    if attrs.len() == 0 {
        None
    } else if is_dialect_attribute(attrs[0]) {
        Some(attrs[0]->Some_0.value@)
    } else {
        first_dialect_value(attrs.drop_first())
    }
}

/// The value of the first dialect attribute on an opening tag that the scan
/// reaches.
pub open spec fn dialect_of(evs: Seq<ScanEvent>) -> Option<Seq<char>>
    decreases evs.len(),
{
    if evs.len() == 0 || is_terminal(evs[0]) {
        None
    } else {
        match evs[0] {
            ScanEvent::Start(el) => match first_dialect_value(el.attributes@) {
                Some(v) => Some(v),
                None => dialect_of(evs.drop_first()),
            },
            _ => dialect_of(evs.drop_first()),
        }
    }
}

fn dialect_value(attrs: &Vec<Option<Attribute>>) -> (r: Option<String>)
    ensures
        match r {
            Some(v) => first_dialect_value(attrs@) == Some(v@),
            None => first_dialect_value(attrs@) is None,
        },
{
    let mut i: usize = 0;
    assert(attrs@.skip(0) =~= attrs@);
    while i < attrs.len()
        invariant
            i <= attrs@.len(),
            first_dialect_value(attrs@) == first_dialect_value(attrs@.skip(i as int)),
        decreases attrs@.len() - i,
    {
        assert(attrs@.skip(i as int).drop_first() =~= attrs@.skip(i + 1));
        if let Some(a) = &attrs[i] {
            if eq_ignore_ascii_case(a.key.as_str(), "xmlns") || eq_ignore_ascii_case(
                a.key.as_str(),
                "sdk",
            ) {
                return Some(a.value.clone());
            }
        }
        i += 1;
    }
    None
}

/// The dialect that a scanned document declares: the value of the first
/// `xmlns` or `sdk` attribute, in any ASCII case, on an opening tag before
/// the scan stops; `None` when there is none.
pub fn project_dialect(events: &Vec<ScanEvent>) -> (r: Option<String>)
    ensures
        match r {
            Some(v) => dialect_of(events@) == Some(v@),
            None => dialect_of(events@) is None,
        },
{
    let mut i: usize = 0;
    assert(events@.skip(0) =~= events@);
    while i < events.len()
        invariant
            i <= events@.len(),
            dialect_of(events@) == dialect_of(events@.skip(i as int)),
        decreases events@.len() - i,
    {
        assert(events@.skip(i as int).drop_first() =~= events@.skip(i + 1));
        if is_terminal_event(&events[i]) {
            return None;
        }
        if let ScanEvent::Start(el) = &events[i] {
            let v = dialect_value(&el.attributes);
            if v.is_some() {
                return v;
            }
        }
        i += 1;
    }
    None
}

} // verus!
