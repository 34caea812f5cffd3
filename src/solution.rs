//! Reads the member projects out of a solution manifest.

use crate::text::{
    chars_of, find_char, find_name_start, first_index, lemma_name_start_bound, name_start,
    region_equals, trim_bounds, trimmed,
};
use vstd::prelude::*;

verus! {

/// Why the projects of a manifest could not be listed.
#[derive(Clone, Copy, Debug, PartialEq, Eq, Structural)]
pub enum SolutionError {
    /// The manifest path names no file, so it has no directory to resolve
    /// project paths against.
    NoParentDirectory,
}

/// `s` begins with `p`.
pub open spec fn starts_with(s: Seq<char>, p: Seq<char>) -> bool {
    s.len() >= p.len() && s.take(p.len() as int) == p
}

/// `s` without one opening and one closing double quote, where it has them.
pub open spec fn unquoted(s: Seq<char>) -> Seq<char> {
    let s1 = if s.len() > 0 && s[0] == '"' { s.drop_first() } else { s };
    if s1.len() > 0 && s1.last() == '"' { s1.drop_last() } else { s1 }
}

/// The relative project path that a manifest line declares: for a line that,
/// trimmed, starts with `Project(` and holds a comma, its second
/// comma-separated field, trimmed and unquoted.
pub open spec fn declared_path(line: Seq<char>) -> Option<Seq<char>> {
    let c1 = first_index(line, ',');
    let rest = line.skip(c1 + 1 as int);
    if starts_with(trimmed(line), "Project("@) && c1 < line.len() {
        Some(unquoted(trimmed(rest.take(first_index(rest, ',') as int))))
    } else {
        None
    }
}

/// The paths that the lines of `text` declare, in order, each put after
/// `dir`.
pub open spec fn declared_paths(text: Seq<char>, dir: Seq<char>) -> Seq<Seq<char>>
    decreases text.len(),
{
    let i = first_index(text, '\n');
    let here = match declared_path(text.take(i as int)) {
        Some(p) => seq![dir + p],
        None => Seq::empty(),
    };
    if i < text.len() {
        here + declared_paths(text.skip(i + 1 as int), dir)
    } else {
        here
    }
}

/// The manifest path names a file: it is not empty and does not end with a
/// separator.
pub open spec fn names_file(path: Seq<char>) -> bool {
    path.len() > 0 && name_start(path) < path.len()
}

/// The manifest's directory, with its closing separator: `path` without its
/// last component. Empty for a bare file name.
pub open spec fn manifest_dir(path: Seq<char>) -> Seq<char> {
    path.take(name_start(path) as int)
}

/// The absolute paths of the projects that a manifest declares.
pub open spec fn project_paths(text: Seq<char>, path: Seq<char>) -> Seq<Seq<char>> {
    declared_paths(text, manifest_dir(path))
}

/// The bounds, within `s`, of the path that the line `s[from..to]` declares.
fn line_path_bounds(s: &Vec<char>, from: usize, to: usize, prefix: &Vec<char>) -> (r: Option<
    (usize, usize),
>)
    requires
        from <= to <= s@.len(),
        prefix@ == "Project("@,
    ensures
        match r {
            Some((a, b)) => {
                &&& from <= a <= b <= to
                &&& declared_path(s@.subrange(from as int, to as int)) == Some(
                    s@.subrange(a as int, b as int),
                )
            },
            None => declared_path(s@.subrange(from as int, to as int)) is None,
        },
{
    let ghost line = s@.subrange(from as int, to as int);
    let (lo, hi) = trim_bounds(s, from, to);
    if hi - lo < prefix.len() || !region_equals(s, lo, prefix) {
        proof {
            if hi - lo >= prefix@.len() {
                assert(trimmed(line).take(prefix@.len() as int) =~= s@.subrange(
                    lo as int,
                    lo + prefix@.len(),
                ));
            }
        }
        return None;
    }
    assert(trimmed(line).take(prefix@.len() as int) =~= s@.subrange(lo as int, lo + prefix@.len()));
    let c1 = find_char(s, from, to, ',');
    if c1 == to {
        return None;
    }
    let c2 = find_char(s, c1 + 1, to, ',');
    let ghost rest = line.skip(c1 - from + 1);
    assert(rest =~= s@.subrange(c1 + 1, to as int));
    assert(rest.take(first_index(rest, ',') as int) =~= s@.subrange(c1 + 1, c2 as int));
    let (mut a, mut b) = trim_bounds(s, c1 + 1, c2);
    let ghost field = s@.subrange(a as int, b as int);
    if a < b && s[a] == '"' {
        a += 1;
    }
    assert(s@.subrange(a as int, b as int) =~= (if field.len() > 0 && field[0] == '"' {
        field.drop_first()
    } else {
        field
    }));
    let ghost field1 = s@.subrange(a as int, b as int);
    if a < b && s[b - 1] == '"' {
        b -= 1;
    }
    assert(s@.subrange(a as int, b as int) =~= (if field1.len() > 0 && field1.last() == '"' {
        field1.drop_last()
    } else {
        field1
    }));
    Some((a, b))
}

/// Lists the projects that the manifest `text`, read from `manifest_path`,
/// declares: for each line that, trimmed, starts with `Project(`, its second
/// comma-separated field, trimmed and unquoted, put in the manifest's
/// directory. Lines of any other shape are passed over; order is kept.
pub fn enumerate_projects(text: &str, manifest_path: &str) -> (r: Result<
    Vec<String>,
    SolutionError,
>)
    ensures
        match r {
            Ok(paths) => names_file(manifest_path@) && paths@.map_values(|p: String| p@)
                == project_paths(text@, manifest_path@),
            Err(e) => !names_file(manifest_path@) && e == SolutionError::NoParentDirectory,
        },
{
    let path_chars = chars_of(manifest_path);
    let dir_end = find_name_start(&path_chars);
    if path_chars.len() == 0 || dir_end == path_chars.len() {
        return Err(SolutionError::NoParentDirectory);
    }
    proof {
        lemma_name_start_bound(manifest_path@, manifest_path@.len() as int);
    }
    let dir = manifest_path.substring_char(0, dir_end);
    assert(dir@ =~= manifest_dir(manifest_path@));
    let s = chars_of(text);
    let prefix = chars_of("Project(");
    let ghost all = declared_paths(s@, dir@);
    let ghost mut got: Seq<Seq<char>> = Seq::empty();
    let mut out: Vec<String> = Vec::new();
    let mut start: usize = 0;
    assert(s@.skip(0) =~= s@);
    loop
        invariant
            s@ == text@,
            names_file(manifest_path@),
            dir@ == manifest_dir(manifest_path@),
            start <= s@.len(),
            prefix@ == "Project("@,
            all == declared_paths(s@, dir@),
            all == got + declared_paths(s@.skip(start as int), dir@),
            out@.len() == got.len(),
            forall|k: int| 0 <= k < got.len() ==> (#[trigger] out@[k])@ == got[k],
        decreases s@.len() - start,
    {
        let end = find_char(&s, start, s.len(), '\n');
        let ghost rest = s@.skip(start as int);
        assert(s@.subrange(start as int, s@.len() as int) =~= rest);
        assert(rest.take(end - start) =~= s@.subrange(start as int, end as int));
        let ghost here = match declared_path(s@.subrange(start as int, end as int)) {
            Some(p) => seq![dir@ + p],
            None => Seq::<Seq<char>>::empty(),
        };
        match line_path_bounds(&s, start, end, &prefix) {
            Some((a, b)) => {
                let rel = text.substring_char(a, b);
                assert(s@.subrange(a as int, b as int) == text@.subrange(a as int, b as int));
                out.push(dir.to_owned().concat(rel));
            },
            None => {},
        }
        proof {
            got = got + here;
        }
        if end == s.len() {
            assert(declared_paths(rest, dir@) == here);
            assert(got =~= all);
            assert(out@.map_values(|p: String| p@) =~= all);
            return Ok(out);
        }
        assert(rest.skip(end - start + 1) =~= s@.skip(end + 1));
        start = end + 1;
    }
}

/// Listing the projects of one manifest twice gives the same paths in the
/// same order: what `enumerate_projects` returns depends on the manifest's
/// text and path alone.
pub proof fn law_enumeration_repeatable(
    text: Seq<char>,
    path: Seq<char>,
    first: Seq<Seq<char>>,
    second: Seq<Seq<char>>,
)
    requires
        first == project_paths(text, path),
        second == project_paths(text, path),
    ensures
        first == second,
{
}

} // verus!
