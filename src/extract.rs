//! Selecting one template's files from a repository archive.
//!
//! Repository archives wrap all content in a single top-level folder. An
//! entry belongs to the requested subdirectory when, after that folder is
//! dropped, the subdirectory's components are its leading components. The
//! comparison is by whole components, so `group/temp` never selects
//! `group/template/...`.

use vstd::prelude::*;
use crate::error::JumpStartError;
use crate::text::{components, join_from, join_parts, path_components, views};

verus! {

/// The piece that names a parent directory.
pub open spec fn parent_part() -> Seq<char> {
    seq!['.', '.']
}

/// Where an archive entry goes, as components relative to `subdir`: `None`
/// for an entry outside `subdir`, for the subdirectory itself, and for a
/// path that climbs out with `..`.
pub open spec fn entry_target_spec(subdir: Seq<char>, entry: Seq<char>) -> Option<Seq<Seq<char>>> {
    let comps = components(entry);
    let want = components(subdir);
    if comps.len() < 1 {
        None
    } else {
        let rel = comps.drop_first();
        let rest = rel.skip(want.len() as int);
        if rel.len() > want.len() && rel.take(want.len() as int) == want && (forall|j: int|
            0 <= j < rest.len() ==> rest[j] != parent_part()) {
            Some(rest)
        } else {
            None
        }
    }
}

/// The entries of `entries` that are extracted, by index, with the path
/// each lands on relative to the destination, in archive order.
pub open spec fn planned(subdir: Seq<char>, entries: Seq<Seq<char>>) -> Seq<(int, Seq<char>)>
    decreases entries.len(),
{
    if entries.len() == 0 {
        Seq::empty()
    } else {
        let init = planned(subdir, entries.drop_last());
        match entry_target_spec(subdir, entries.last()) {
            Some(t) => init.push((entries.len() - 1, join_parts(t))),
            None => init,
        }
    }
}

/// Selection is by whole components: an entry is taken only when, below
/// the archive's top folder, it is the subdirectory's components followed
/// by at least one more.
pub proof fn lemma_selection_is_component_prefix(subdir: Seq<char>, entry: Seq<char>)
    ensures
        entry_target_spec(subdir, entry) matches Some(t) ==> {
            &&& t.len() > 0
            &&& components(entry).drop_first() == components(subdir) + t
        },
{
    if let Some(t) = entry_target_spec(subdir, entry) {
        let rel = components(entry).drop_first();
        let k = components(subdir).len() as int;
        assert(rel =~= rel.take(k) + rel.skip(k));
    }
}

/// An archive none of whose entries lies under the subdirectory yields
/// nothing to extract.
pub proof fn lemma_missing_subdir_selects_nothing(subdir: Seq<char>, entries: Seq<Seq<char>>)
    requires
        forall|i: int| 0 <= i < entries.len() ==> entry_target_spec(subdir, entries[i]) is None,
    ensures
        planned(subdir, entries).len() == 0,
    decreases entries.len(),
{
    if entries.len() > 0 {
        let init = entries.drop_last();
        assert forall|i: int| 0 <= i < init.len() implies entry_target_spec(
            subdir,
            init[i],
        ) is None by {
            assert(init[i] == entries[i]);
        }
        lemma_missing_subdir_selects_nothing(subdir, init);
    }
}

/// The running state of one extraction: the subdirectory asked for and
/// whether any entry has been selected so far.
pub struct Extraction {
    subdir: String,
    wanted: Vec<String>,
    found: bool,
}

impl Extraction {
    pub closed spec fn subdir_spec(&self) -> Seq<char> {
        self.subdir@
    }

    pub closed spec fn found_spec(&self) -> bool {
        self.found
    }

    pub closed spec fn wf(&self) -> bool {
        views(self.wanted@) == components(self.subdir@)
    }

    /// Starts an extraction of `subdir`; nothing is selected yet.
    pub fn new(subdir: &str) -> (r: Self)
        ensures
            r.wf(),
            r.subdir_spec() == subdir@,
            !r.found_spec(),
    {
        Extraction { subdir: String::from_str(subdir), wanted: path_components(subdir), found: false }
    }

    /// Where the entry `entry_path` goes relative to the destination, or
    /// `None` when it is not extracted.
    pub fn target(&mut self, entry_path: &str) -> (r: Option<String>)
        requires
            old(self).wf(),
        ensures
            final(self).wf(),
            final(self).subdir_spec() == old(self).subdir_spec(),
            match entry_target_spec(old(self).subdir_spec(), entry_path@) {
                Some(t) => r matches Some(p) && p@ == join_parts(t) && final(self).found_spec(),
                None => r is None && final(self).found_spec() == old(self).found_spec(),
            },
    {
        let comps = path_components(entry_path);
        let ghost want = components(self.subdir@);
        let k = self.wanted.len();
        if comps.len() < 1 || comps.len() - 1 <= k {
            return None;
        }
        let ghost rel = views(comps@).drop_first();
        let mut i: usize = 0;
        while i < k
            invariant
                k == self.wanted.len(),
                k < comps.len() - 1,
                self.wf(),
                self.subdir == old(self).subdir,
                self.found == old(self).found,
                views(comps@) == components(entry_path@),
                want == components(old(self).subdir@),
                comps.len() > k + 1,
                views(self.wanted@) == want,
                rel == views(comps@).drop_first(),
                i <= k,
                forall|j: int| 0 <= j < i ==> rel[j] == want[j],
            decreases k - i,
        {
            let same = comps[i + 1] == self.wanted[i];
            if !same {
                assert(rel[i as int] == comps[i + 1]@);
                assert(want[i as int] == self.wanted[i as int]@);
                assert(rel.take(k as int)[i as int] != want[i as int]);
                assert(rel.take(k as int) != want);
                return None;
            }
            i += 1;
        }
        assert(rel.take(k as int) =~= want);
        let ghost rest = rel.skip(k as int);
        let mut j: usize = k + 1;
        while j < comps.len()
            invariant
                k + 1 <= j <= comps.len(),
                k == self.wanted.len(),
                self.wf(),
                self.subdir == old(self).subdir,
                self.found == old(self).found,
                views(comps@) == components(entry_path@),
                want == components(old(self).subdir@),
                comps.len() > k + 1,
                rest == views(comps@).drop_first().skip(k as int),
                rel == views(comps@).drop_first(),
                rel.take(k as int) == want,
                forall|m: int| 0 <= m < j - k - 1 ==> rest[m] != parent_part(),
            decreases comps.len() - j,
        {
            let part = comps[j].as_str();
            let up = part.unicode_len() == 2 && part.get_char(0) == '.' && part.get_char(1) == '.';
            if up {
                assert(part@ =~= parent_part());
                assert(rest[j - k - 1] == comps[j as int]@);
                assert(!(forall|m: int| 0 <= m < rest.len() ==> rest[m] != parent_part()));
                assert(entry_target_spec(old(self).subdir_spec(), entry_path@) is None);
                return None;
            }
            proof {
                if comps[j as int]@ == parent_part() {
                    assert(part@.len() == 2 && part@[0] == '.' && part@[1] == '.');
                }
                assert(rest[j - k - 1] == comps[j as int]@);
            }
            j += 1;
        }
        assert(rest =~= views(comps@).subrange(k + 1, comps.len() as int));
        self.found = true;
        Some(join_from(&comps, k + 1))
    }

    /// Ends the extraction: an error naming the subdirectory when no entry
    /// was selected.
    pub fn finish(&self) -> (r: Result<(), JumpStartError>)
        ensures
            r is Ok <==> self.found_spec(),
            r matches Err(e) ==> e matches JumpStartError::SubdirectoryNotFound(s) && s@
                == self.subdir_spec(),
    {
        if self.found {
            Ok(())
        } else {
            Err(JumpStartError::SubdirectoryNotFound(self.subdir.clone()))
        }
    }
}

/// Decides, for the archive entries `entries` in order, which are
/// extracted for `subdir` and where each lands relative to the destination.
/// Fails with `SubdirectoryNotFound` exactly when none is.
pub fn plan_extraction(subdir: &str, entries: &Vec<String>) -> (r: Result<
    Vec<(usize, String)>,
    JumpStartError,
>)
    ensures
        r is Ok <==> planned(subdir@, views(entries@)).len() > 0,
        r matches Ok(v) ==> v.len() == planned(subdir@, views(entries@)).len() && forall|j: int|
            0 <= j < v.len() ==> v[j].0 as int == planned(subdir@, views(entries@))[j].0 && v[j].1@
                == planned(subdir@, views(entries@))[j].1,
        r matches Err(e) ==> e matches JumpStartError::SubdirectoryNotFound(s) && s@ == subdir@,
{
    let mut ex = Extraction::new(subdir);
    let mut out: Vec<(usize, String)> = Vec::new();
    let mut i: usize = 0;
    assert(views(entries@).take(0) =~= Seq::<Seq<char>>::empty());
    while i < entries.len()
        invariant
            i <= entries.len(),
            ex.wf(),
            ex.subdir_spec() == subdir@,
            ex.found_spec() <==> out.len() > 0,
            out.len() == planned(subdir@, views(entries@).take(i as int)).len(),
            forall|j: int|
                0 <= j < out.len() ==> out[j].0 as int == planned(
                    subdir@,
                    views(entries@).take(i as int),
                )[j].0 && out[j].1@ == planned(subdir@, views(entries@).take(i as int))[j].1,
        decreases entries.len() - i,
    {
        let ghost es = views(entries@).take(i + 1);
        proof {
            assert(es.drop_last() =~= views(entries@).take(i as int));
            assert(es.last() == entries[i as int]@);
        }
        match ex.target(entries[i].as_str()) {
            Some(p) => {
                out.push((i, p));
            },
            None => {},
        }
        i += 1;
    }
    assert(views(entries@).take(entries.len() as int) =~= views(entries@));
    match ex.finish() {
        Ok(()) => Ok(out),
        Err(e) => Err(e),
    }
}

} // verus!
