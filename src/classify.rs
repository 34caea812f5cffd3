//! Decides whether, and how, a project document declares a dependency on a
//! named component.

use crate::scanner::{
    document_events, is_terminal, is_terminal_event, scan_document, Attribute, Element, ScanEvent,
};
use crate::text::{
    chars_of, ends_with_ignore_ascii_case, ends_with_ignoring_ascii_case, eq_ignore_ascii_case,
    find_name_start, fold_ascii, is_separator, lemma_name_start_bound, name_start,
    same_ignoring_ascii_case,
};
use vstd::prelude::*;

verus! {

/// How a project document declares a dependency. The three kinds other than
/// `NoReference` are listed in the order in which they are tried.
#[derive(Clone, Copy, Debug, PartialEq, Eq, Structural)]
pub enum ReferenceKind {
    /// No reference to the target.
    NoReference,
    /// A direct reference to a binary.
    Reference,
    /// A reference to a managed package.
    PackageReference,
    /// A reference to another project of the same solution.
    ProjectReference,
}

impl ReferenceKind {
    /// The kind's name; for the three reference kinds, also the tag name of
    /// the elements that declare it.
    pub open spec fn spec_name(self) -> Seq<char> {
        match self {
            ReferenceKind::NoReference => "None"@,
            ReferenceKind::Reference => "Reference"@,
            ReferenceKind::PackageReference => "PackageReference"@,
            ReferenceKind::ProjectReference => "ProjectReference"@,
        }
    }

    pub fn name(&self) -> (r: &'static str)
        ensures
            r@ == self.spec_name(),
    {
        match self {
            ReferenceKind::NoReference => "None",
            ReferenceKind::Reference => "Reference",
            ReferenceKind::PackageReference => "PackageReference",
            ReferenceKind::ProjectReference => "ProjectReference",
        }
    }
}

/// A project in which a reference to the target was found, and its kind.
#[derive(Clone, Debug, PartialEq, Eq)]
pub struct ProjectReferenceRecord {
    pub project_path: String,
    pub kind: ReferenceKind,
}

/// Whether `t` carries the binary-file suffix `.dll`, in any case.
pub open spec fn has_dll_suffix(t: Seq<char>) -> bool {
    ends_with_ignoring_ascii_case(t, ".dll"@)
}

/// The name that documents are searched for: a target given as a file name
/// `dir/Name.dll` is cut to `Name`; any other target is searched as given.
pub open spec fn normalized_target(t: Seq<char>) -> Seq<char> {
    if has_dll_suffix(t) {
        t.subrange(name_start(t) as int, t.len() - 4)
    } else {
        t
    }
}

/// `a` is an attribute whose key is `include`, in any case, and whose value
/// is exactly `t`.
pub open spec fn names_target(a: Option<Attribute>, t: Seq<char>) -> bool {
    match a {
        Some(x) => same_ignoring_ascii_case(x.key@, "include"@) && x.value@ == t,
        None => false,
    }
}

/// `el` declares a reference of `kind` to `t`: its tag name is exactly the
/// kind's name and one of its attributes names `t`.
pub open spec fn element_names(el: Element, kind: ReferenceKind, t: Seq<char>) -> bool {
    &&& el.name@ == kind.spec_name()
    &&& exists|i: int| 0 <= i < el.attributes@.len() && names_target(#[trigger] el.attributes@[i], t)
}

/// `e` is an opening or self-closing tag that declares a reference of
/// `kind` to `t`.
pub open spec fn event_names(e: ScanEvent, kind: ReferenceKind, t: Seq<char>) -> bool {
    match e {
        ScanEvent::Start(el) => element_names(el, kind, t),
        ScanEvent::Empty(el) => element_names(el, kind, t),
        _ => false,
    }
}

/// No event before position `i` stops the scan.
pub open spec fn reached(evs: Seq<ScanEvent>, i: int) -> bool {
    forall|j: int| 0 <= j < i ==> !is_terminal(#[trigger] evs[j])
}

/// Some event that the scan reaches declares a reference of `kind` to `t`.
pub open spec fn has_reference_spec(evs: Seq<ScanEvent>, kind: ReferenceKind, t: Seq<char>) -> bool {
    exists|i: int| 0 <= i < evs.len() && reached(evs, i) && #[trigger] event_names(evs[i], kind, t)
}

/// The first of `Reference`, `PackageReference`, `ProjectReference` that is
/// declared for `t`, or `NoReference`.
pub open spec fn classification(evs: Seq<ScanEvent>, t: Seq<char>) -> ReferenceKind {
    if has_reference_spec(evs, ReferenceKind::Reference, t) {
        ReferenceKind::Reference
    } else if has_reference_spec(evs, ReferenceKind::PackageReference, t) {
        ReferenceKind::PackageReference
    } else if has_reference_spec(evs, ReferenceKind::ProjectReference, t) {
        ReferenceKind::ProjectReference
    } else {
        ReferenceKind::NoReference
    }
}

/// The last four characters of a target with the `.dll` suffix hold no
/// separator, so its last component is at least that long.
proof fn lemma_suffix_in_last_component(t: Seq<char>)
    requires
        has_dll_suffix(t),
    ensures
        name_start(t) <= t.len() - 4,
{
    reveal_strlit(".dll");
    let tail = t.subrange(t.len() - 4, t.len() as int);
    assert forall|j: int| t.len() - 4 <= j < t.len() implies !is_separator(#[trigger] t[j]) by {
        assert(tail[j - (t.len() - 4)] == t[j]);
        assert(fold_ascii(tail[j - (t.len() - 4)]) == fold_ascii(".dll"@[j - (t.len() - 4)]));
    }
    lemma_name_start_bound(t, t.len() - 4);
}

/// The name that documents are searched for, given the target as the user
/// wrote it.
pub fn normalize_target(target: &str) -> (r: String)
    ensures
        r@ == normalized_target(target@),
{
    if ends_with_ignore_ascii_case(target, ".dll") {
        let cs = chars_of(target);
        let start = find_name_start(&cs);
        proof {
            lemma_suffix_in_last_component(target@);
        }
        target.substring_char(start, cs.len() - 4).to_owned()
    } else {
        target.to_owned()
    }
}

/// Whether `a` is an `include` attribute whose value is exactly `target`.
pub fn attribute_names_target(a: &Option<Attribute>, target: &String) -> (r: bool)
    ensures
        r == names_target(*a, target@),
{
    match a {
        Some(x) => eq_ignore_ascii_case(x.key.as_str(), "include") && x.value == *target,
        None => false,
    }
}

/// Whether `el` declares a reference of `kind` to `target`.
pub fn element_names_target(el: &Element, kind: ReferenceKind, target: &String) -> (r: bool)
    ensures
        r == element_names(*el, kind, target@),
{
    let kind_name = kind.name().to_owned();
    if !(el.name == kind_name) {
        return false;
    }
    let mut i: usize = 0;
    while i < el.attributes.len()
        invariant
            el.name@ == kind.spec_name(),
            i <= el.attributes@.len(),
            forall|j: int| 0 <= j < i ==> !names_target(#[trigger] el.attributes@[j], target@),
        decreases el.attributes@.len() - i,
    {
        if attribute_names_target(&el.attributes[i], target) {
            assert(names_target(el.attributes@[i as int], target@));
            return true;
        }
        i += 1;
    }
    false
}

/// Whether `e` is a tag that declares a reference of `kind` to `target`.
pub fn event_names_target(e: &ScanEvent, kind: ReferenceKind, target: &String) -> (r: bool)
    ensures
        r == event_names(*e, kind, target@),
{
    match e {
        ScanEvent::Start(el) => element_names_target(el, kind, target),
        ScanEvent::Empty(el) => element_names_target(el, kind, target),
        _ => false,
    }
}

/// One pass over the scanned events, from the first: whether a tag of
/// `kind` names `target` before the scan stops.
pub fn has_reference(events: &Vec<ScanEvent>, kind: ReferenceKind, target: &String) -> (r: bool)
    ensures
        r == has_reference_spec(events@, kind, target@),
{
    let mut i: usize = 0;
    while i < events.len()
        invariant
            i <= events@.len(),
            reached(events@, i as int),
            forall|j: int| 0 <= j < i ==> !#[trigger] event_names(events@[j], kind, target@),
        decreases events@.len() - i,
    {
        if is_terminal_event(&events[i]) {
            assert forall|k: int| 0 <= k < events@.len() && reached(events@, k) implies !#[trigger] event_names(events@[k], kind, target@) by {
                if k > i {
                    assert(!is_terminal(events@[i as int]));
                }
            }
            return false;
        }
        if event_names_target(&events[i], kind, target) {
            return true;
        }
        i += 1;
    }
    false
}

/// Classifies scanned events: the first reference kind, in the order
/// `Reference`, `PackageReference`, `ProjectReference`, that some tag
/// declares for the normalized target, or `NoReference`.
pub fn classify_events(events: &Vec<ScanEvent>, target: &str) -> (r: ReferenceKind)
    ensures
        r == classification(events@, normalized_target(target@)),
{
    let name = normalize_target(target);
    if has_reference(events, ReferenceKind::Reference, &name) {
        ReferenceKind::Reference
    } else if has_reference(events, ReferenceKind::PackageReference, &name) {
        ReferenceKind::PackageReference
    } else if has_reference(events, ReferenceKind::ProjectReference, &name) {
        ReferenceKind::ProjectReference
    } else {
        ReferenceKind::NoReference
    }
}

/// Classifies a project document's text for `target`.
pub fn classify(doc: &str, target: &str) -> (r: ReferenceKind)
    ensures
        r == classification(document_events(doc@), normalized_target(target@)),
{
    let events = scan_document(doc);
    classify_events(&events, target)
}

/// `e` is an opening or self-closing tag named like one of the three
/// reference kinds.
pub open spec fn is_reference_tag(e: ScanEvent) -> bool {
    match e {
        ScanEvent::Start(el) => is_reference_tag_name(el.name@),
        ScanEvent::Empty(el) => is_reference_tag_name(el.name@),
        _ => false,
    }
}

pub open spec fn is_reference_tag_name(n: Seq<char>) -> bool {
    n == ReferenceKind::Reference.spec_name() || n == ReferenceKind::PackageReference.spec_name()
        || n == ReferenceKind::ProjectReference.spec_name()
}

/// Different kinds have different names.
pub proof fn lemma_kind_names_distinct(a: ReferenceKind, b: ReferenceKind)
    requires
        a != b,
    ensures
        a.spec_name() != b.spec_name(),
{
    reveal_strlit("None");
    reveal_strlit("Reference");
    reveal_strlit("PackageReference");
    reveal_strlit("ProjectReference");
    if a.spec_name() == b.spec_name() {
        assert(a.spec_name()[1] == b.spec_name()[1]);
    }
}

/// A document without any tag named `Reference`, `PackageReference` or
/// `ProjectReference` is classified `NoReference`, whatever the target.
pub proof fn law_no_reference_tags(evs: Seq<ScanEvent>, t: Seq<char>)
    requires
        forall|i: int| 0 <= i < evs.len() ==> !is_reference_tag(#[trigger] evs[i]),
    ensures
        classification(evs, t) == ReferenceKind::NoReference,
{
    assert forall|k: ReferenceKind, i: int|
        k != ReferenceKind::NoReference && 0 <= i < evs.len() implies !#[trigger] event_names(
        evs[i],
        k,
        t,
    ) by {
        assert(!is_reference_tag(evs[i]));
    }
}

/// A document in which exactly one reference-kind tag names the target, and
/// the scan reaches it, is classified as that tag's kind.
pub proof fn law_single_reference(evs: Seq<ScanEvent>, t: Seq<char>, i: int, kind: ReferenceKind)
    requires
        kind != ReferenceKind::NoReference,
        0 <= i < evs.len(),
        reached(evs, i),
        event_names(evs[i], kind, t),
        forall|j: int, k: ReferenceKind|
            0 <= j < evs.len() && j != i && k != ReferenceKind::NoReference ==> !#[trigger] event_names(
                evs[j],
                k,
                t,
            ),
    ensures
        classification(evs, t) == kind,
{
    assert(has_reference_spec(evs, kind, t));
    assert forall|k: ReferenceKind, j: int|
        k != kind && k != ReferenceKind::NoReference && 0 <= j < evs.len() implies !#[trigger] event_names(
        evs[j],
        k,
        t,
    ) by {
        if j == i {
            lemma_kind_names_distinct(k, kind);
        }
    }
}

/// Where both a `PackageReference` and a `ProjectReference` name the target,
/// the package reference wins, unless a `Reference` names it too; in which
/// order the tags stand does not matter.
pub proof fn law_priority(evs: Seq<ScanEvent>, t: Seq<char>)
    requires
        has_reference_spec(evs, ReferenceKind::PackageReference, t),
        has_reference_spec(evs, ReferenceKind::ProjectReference, t),
    ensures
        classification(evs, t) == if has_reference_spec(evs, ReferenceKind::Reference, t) {
            ReferenceKind::Reference
        } else {
            ReferenceKind::PackageReference
        },
{
}

/// A component name and the same name with the `.dll` suffix are searched
/// for alike, in any document.
pub proof fn law_dll_suffix(evs: Seq<ScanEvent>, name: Seq<char>)
    requires
        forall|j: int| 0 <= j < name.len() ==> !is_separator(#[trigger] name[j]),
        !has_dll_suffix(name),
    ensures
        classification(evs, normalized_target(name + ".dll"@)) == classification(
            evs,
            normalized_target(name),
        ),
{
    reveal_strlit(".dll");
    let full = name + ".dll"@;
    assert(full.subrange(full.len() - 4, full.len() as int) =~= ".dll"@);
    assert(has_dll_suffix(full));
    assert forall|j: int| 0 <= j < full.len() implies !is_separator(#[trigger] full[j]) by {
        if j < name.len() {
            assert(full[j] == name[j]);
        }
    }
    lemma_name_start_bound(full, 0);
    assert(full.subrange(0, full.len() - 4) =~= name);
}

/// Tag names match exactly, the `include` key in any ASCII case, and the
/// value exactly: two elements with the same tag name, whose attributes
/// differ only in the case of their keys, name the same targets.
pub proof fn law_include_key_case(a: Element, b: Element, kind: ReferenceKind, t: Seq<char>)
    requires
        a.name@ == b.name@,
        a.attributes@.len() == b.attributes@.len(),
        forall|j: int|
            0 <= j < a.attributes@.len() ==> match (#[trigger] a.attributes@[j], b.attributes@[j]) {
                (Some(x), Some(y)) => same_ignoring_ascii_case(x.key@, y.key@) && x.value@
                    == y.value@,
                (None, None) => true,
                _ => false,
            },
    ensures
        element_names(a, kind, t) == element_names(b, kind, t),
        element_names(a, kind, t) ==> a.name@ == kind.spec_name(),
{
    assert forall|j: int| 0 <= j < a.attributes@.len() implies names_target(
        #[trigger] a.attributes@[j],
        t,
    ) == names_target(b.attributes@[j], t) by {
        match (a.attributes@[j], b.attributes@[j]) {
            (Some(x), Some(y)) => {
                if same_ignoring_ascii_case(x.key@, "include"@) {
                    assert forall|m: int| 0 <= m < y.key@.len() implies fold_ascii(
                        #[trigger] y.key@[m],
                    ) == fold_ascii("include"@[m]) by {
                        assert(fold_ascii(x.key@[m]) == fold_ascii(y.key@[m]));
                    }
                }
                if same_ignoring_ascii_case(y.key@, "include"@) {
                    assert forall|m: int| 0 <= m < x.key@.len() implies fold_ascii(
                        #[trigger] x.key@[m],
                    ) == fold_ascii("include"@[m]) by {
                        assert(fold_ascii(x.key@[m]) == fold_ascii(y.key@[m]));
                    }
                }
            },
            _ => {},
        }
    }
    if element_names(a, kind, t) {
        let j = choose|j: int| 0 <= j < a.attributes@.len() && names_target(#[trigger] a.attributes@[j], t);
        assert(names_target(b.attributes@[j], t));
    }
    if element_names(b, kind, t) {
        let j = choose|j: int| 0 <= j < b.attributes@.len() && names_target(#[trigger] b.attributes@[j], t);
        assert(names_target(a.attributes@[j], t));
    }
}

} // verus!
