//! Runs the classifier over every project of a solution and gathers the
//! projects that reference the target.

use crate::classify::{classification, classify, normalized_target, ProjectReferenceRecord, ReferenceKind};
use crate::scanner::document_events;
use vstd::prelude::*;

verus! {

/// A member project: its path, and its document's text, or `None` where the
/// document could not be read.
#[derive(Clone, Debug, PartialEq, Eq)]
pub struct ProjectDocument {
    pub path: String,
    pub text: Option<String>,
}

/// What a search over a solution's projects found.
#[derive(Clone, Debug, PartialEq, Eq)]
pub struct SearchReport {
    /// The projects that reference the target, in the order given.
    pub found: Vec<ProjectReferenceRecord>,
    /// The projects whose documents could not be read, in the order given.
    pub unreadable: Vec<String>,
}

/// How a readable project references `t`.
pub open spec fn project_kind(text: String, t: Seq<char>) -> ReferenceKind {
    classification(document_events(text@), normalized_target(t))
}

/// Path and kind of each readable project of `ps` that references `t`.
pub open spec fn found_records(ps: Seq<ProjectDocument>, t: Seq<char>) -> Seq<(Seq<char>, ReferenceKind)>
    decreases ps.len(),
{
    if ps.len() == 0 {
        Seq::empty()
    } else {
        let earlier = found_records(ps.drop_last(), t);
        match ps.last().text {
            Some(text) => if project_kind(text, t) != ReferenceKind::NoReference {
                earlier.push((ps.last().path@, project_kind(text, t)))
            } else {
                earlier
            },
            None => earlier,
        }
    }
}

/// Paths of the projects of `ps` that could not be read.
pub open spec fn unreadable_paths(ps: Seq<ProjectDocument>) -> Seq<Seq<char>>
    decreases ps.len(),
{
    if ps.len() == 0 {
        Seq::empty()
    } else if ps.last().text is None {
        unreadable_paths(ps.drop_last()).push(ps.last().path@)
    } else {
        unreadable_paths(ps.drop_last())
    }
}

/// The path and kind that a record holds.
pub open spec fn record_view(r: ProjectReferenceRecord) -> (Seq<char>, ReferenceKind) {
    (r.project_path@, r.kind)
}

/// Classifies each project's document for `target`, in order. Projects that
/// reference it are reported with their kind; unreadable ones are listed
/// apart, and the search goes on past them.
pub fn find_references(projects: &Vec<ProjectDocument>, target: &str) -> (r: SearchReport)
    ensures
        r.found@.map_values(|x: ProjectReferenceRecord| record_view(x)) == found_records(
            projects@,
            target@,
        ),
        r.unreadable@.map_values(|p: String| p@) == unreadable_paths(projects@),
{
    let mut found: Vec<ProjectReferenceRecord> = Vec::new();
    let mut unreadable: Vec<String> = Vec::new();
    let mut i: usize = 0;
    while i < projects.len()
        invariant
            i <= projects@.len(),
            found@.map_values(|x: ProjectReferenceRecord| record_view(x)) == found_records(
                projects@.take(i as int),
                target@,
            ),
            unreadable@.map_values(|p: String| p@) == unreadable_paths(projects@.take(i as int)),
        decreases projects@.len() - i,
    {
        let ghost before = projects@.take(i as int);
        assert(projects@.take(i + 1).drop_last() =~= before);
        let p = &projects[i];
        match &p.text {
            Some(text) => {
                let kind = classify(text.as_str(), target);
                if kind != ReferenceKind::NoReference {
                    found.push(ProjectReferenceRecord { project_path: p.path.clone(), kind });
                }
            },
            None => {
                unreadable.push(p.path.clone());
            },
        }
        assert(found@.map_values(|x: ProjectReferenceRecord| record_view(x)) =~= found_records(
            projects@.take(i + 1),
            target@,
        ));
        assert(unreadable@.map_values(|p: String| p@) =~= unreadable_paths(projects@.take(i + 1)));
        i += 1;
    }
    assert(projects@.take(i as int) =~= projects@);
    SearchReport { found, unreadable }
}

} // verus!
