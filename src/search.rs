//! Searching the starters of an instance with a regular expression.
//!
//! A starter matches when the pattern matches its `group/name` path; only
//! when it does not are its files looked at, by name and then by text.
//! Results hold each starter path at most once.

use vstd::prelude::*;
use crate::error::JumpStartError;
use crate::starter::LocalStarter;

verus! {

#[verifier::external_type_specification]
#[verifier::external_body]
pub struct ExRegex(regex::Regex);

#[verifier::external_type_specification]
#[verifier::external_body]
pub struct ExRegexError(regex::Error);

/// Whether `regex::Regex::new` accepts the pattern text.
pub uninterp spec fn regex_valid(pattern: Seq<char>) -> bool;

/// Whether the regex compiled from `pattern` matches somewhere in `text`.
pub uninterp spec fn regex_match(pattern: Seq<char>, text: Seq<char>) -> bool;

/// Relies on regex::Regex::new: compiling succeeds or fails depending on
/// the pattern text alone.
#[verifier::external_body]
fn compile_regex(pattern: &str) -> (r: Result<regex::Regex, regex::Error>)
    ensures
        r is Ok <==> regex_valid(pattern@),
{
    regex::Regex::new(pattern)
}

/// Relies on regex::Regex::is_match, on the regex that `Pattern::new`
/// compiled from `p.source`: whether it matches somewhere in `text`.
#[verifier::external_body]
fn pattern_is_match(p: &Pattern, text: &str) -> (r: bool)
    ensures
        r == regex_match(p.source@, text@),
{
    p.regex.is_match(text)
}

/// A compiled search pattern together with the text it was compiled from.
pub struct Pattern {
    source: String,
    regex: regex::Regex,
}

impl Pattern {
    /// The pattern text.
    pub closed spec fn source_spec(&self) -> Seq<char> {
        self.source@
    }

    /// Whether the pattern matches somewhere in `text`.
    pub open spec fn matches_spec(&self, text: Seq<char>) -> bool {
        regex_match(self.source_spec(), text)
    }

    pub fn is_match(&self, text: &str) -> (r: bool)
        ensures
            r == self.matches_spec(text@),
    {
        pattern_is_match(self, text)
    }
}

/// Compiles a search term, failing with `InvalidPattern` when it is not a
/// regular expression.
pub fn make_pattern(search_term: &str) -> (r: Result<Pattern, JumpStartError>)
    ensures
        r is Ok <==> regex_valid(search_term@),
        r matches Ok(p) ==> p.source_spec() == search_term@,
        r matches Err(e) ==> e matches JumpStartError::InvalidPattern(t) && t@ == search_term@,
{
    match compile_regex(search_term) {
        Ok(regex) => Ok(Pattern { source: String::from_str(search_term), regex }),
        Err(_) => Err(JumpStartError::InvalidPattern(String::from_str(search_term))),
    }
}

/// The pattern matches the starter's `group/name` path.
pub open spec fn name_match_spec(p: Pattern, s: LocalStarter) -> bool {
    p.matches_spec(s.path@)
}

/// Whether the starter matches by its path; when it does, its files need
/// not be looked at.
pub fn matches_name(pattern: &Pattern, starter: &LocalStarter) -> (r: bool)
    ensures
        r == name_match_spec(*pattern, *starter),
{
    pattern.is_match(starter.path.as_str())
}

/// A file of a starter matches by its name or, when it could be read as
/// text, by its contents.
pub open spec fn file_match_spec(p: Pattern, file_name: Seq<char>, contents: Option<Seq<char>>) -> bool {
    p.matches_spec(file_name) || (contents matches Some(c) && p.matches_spec(c))
}

pub fn file_matches(pattern: &Pattern, file_name: &str, contents: Option<&str>) -> (r: bool)
    ensures
        r == file_match_spec(
            *pattern,
            file_name@,
            match contents {
                Some(c) => Some(c@),
                None => None,
            },
        ),
{
    if pattern.is_match(file_name) {
        true
    } else {
        match contents {
            Some(c) => pattern.is_match(c),
            None => false,
        }
    }
}

/// Starter `i` of `starters` is a match: by its path, or, as
/// `file_hits[i]` reports, by one of its files (a missing flag counts as
/// no file hit).
pub open spec fn selected_spec(
    p: Pattern,
    starters: Seq<LocalStarter>,
    file_hits: Seq<bool>,
    i: int,
) -> bool {
    name_match_spec(p, starters[i]) || (i < file_hits.len() && file_hits[i])
}

/// `s` is one of the matching starters.
pub open spec fn is_selected(
    p: Pattern,
    starters: Seq<LocalStarter>,
    file_hits: Seq<bool>,
    s: LocalStarter,
) -> bool {
    exists|i: int| 0 <= i < starters.len() && selected_spec(p, starters, file_hits, i) && starters[i] == s
}

/// No two starters of `v` share a path.
pub open spec fn paths_distinct(v: Seq<LocalStarter>) -> bool {
    forall|i: int, j: int| 0 <= i < j < v.len() ==> v[i].path@ != v[j].path@
}

/// Some starter of `v` has the path `path`.
pub open spec fn has_path(v: Seq<LocalStarter>, path: Seq<char>) -> bool {
    exists|j: int| 0 <= j < v.len() && v[j].path@ == path
}

/// Collects the matching starters, each path once (the first starter found
/// with that path is kept), in the order of `starters`. `file_hits[i]`
/// says whether a file of starter `i` matched; it is not consulted for a
/// starter whose path matches, and a missing flag counts as `false`.
pub fn select_matches(pattern: &Pattern, starters: Vec<LocalStarter>, file_hits: &Vec<bool>) -> (r:
    Vec<LocalStarter>)
    ensures
        paths_distinct(r@),
        forall|i: int|
            0 <= i < starters.len() && selected_spec(*pattern, starters@, file_hits@, i) ==> has_path(
                r@,
                starters@[i].path@,
            ),
        forall|i: int|
            0 <= i < starters.len() && #[trigger] name_match_spec(*pattern, starters@[i]) ==> has_path(
                r@,
                starters@[i].path@,
            ),
        forall|j: int|
            0 <= j < r.len() ==> is_selected(*pattern, starters@, file_hits@, #[trigger] r@[j]),
{
    let ghost all = starters@;
    let ghost mut origin: Seq<int> = Seq::empty();
    let mut out: Vec<LocalStarter> = Vec::new();
    let mut rest = starters;
    let n = rest.len();
    let mut i: usize = 0;
    assert(rest@ =~= all.subrange(0, n as int));
    while i < n
        invariant
            n == all.len(),
            i <= n,
            rest@ == all.subrange(i as int, n as int),
            paths_distinct(out@),
            forall|k: int|
                0 <= k < i && selected_spec(*pattern, all, file_hits@, k) ==> has_path(
                    out@,
                    all[k].path@,
                ),
            origin.len() == out.len(),
            forall|j: int|
                0 <= j < out.len() ==> 0 <= #[trigger] origin[j] < i && selected_spec(
                    *pattern,
                    all,
                    file_hits@,
                    origin[j],
                ) && all[origin[j]] == out@[j],
        decreases n - i,
    {
        let ghost old_out = out@;
        let s = rest.remove(0);
        assert(s == all[i as int]);
        assert(rest@ =~= all.subrange(i + 1, n as int));
        let hit = matches_name(pattern, &s) || (i < file_hits.len() && file_hits[i]);
        if hit {
            let mut seen = false;
            let mut j: usize = 0;
            while j < out.len()
                invariant
                    j <= out.len(),
                    seen ==> has_path(out@, s.path@),
                    !seen ==> forall|m: int| 0 <= m < j ==> out@[m].path@ != s.path@,
                decreases out.len() - j,
            {
                if out[j].path == s.path {
                    seen = true;
                }
                j += 1;
            }
            if !seen {
                out.push(s);
                proof {
                    origin = origin.push(i as int);
                    assert(out@[old_out.len() as int] == all[i as int]);
                    assert forall|k: int|
                        0 <= k <= i && selected_spec(*pattern, all, file_hits@, k) implies has_path(
                        out@,
                        all[k].path@,
                    ) by {
                        if k < i {
                            let j0 = choose|j0: int|
                                0 <= j0 < old_out.len() && old_out[j0].path@ == all[k].path@;
                            assert(out@[j0] == old_out[j0]);
                        } else {
                            assert(out@[old_out.len() as int].path@ == all[k].path@);
                        }
                    }
                    assert forall|j0: int| 0 <= j0 < out.len() implies 0 <= #[trigger] origin[j0]
                        < i + 1 && selected_spec(*pattern, all, file_hits@, origin[j0])
                        && all[origin[j0]] == out@[j0] by {
                        if j0 < old_out.len() {
                            assert(out@[j0] == old_out[j0]);
                        }
                    }
                }
            }
        }
        i += 1;
    }
    assert forall|k: int|
        0 <= k < n && #[trigger] name_match_spec(*pattern, all[k]) implies has_path(
        out@,
        all[k].path@,
    ) by {
        assert(selected_spec(*pattern, all, file_hits@, k));
    }
    assert forall|j: int| 0 <= j < out.len() implies is_selected(
        *pattern,
        starters@,
        file_hits@,
        #[trigger] out@[j],
    ) by {
        assert(starters@[origin[j]] == out@[j]);
    }
    out
}

} // verus!
