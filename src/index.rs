//! The local index: every descriptor file found under an instance root
//! becomes a starter record, grouped by the directory above the starter.

use vstd::prelude::*;
use crate::descriptor::{describes, yaml_accepts};
use crate::error::JumpStartError;
use crate::starter::{LocalStarter, StarterConfig};
use crate::text::{components, contains_spec, contains_text, path_components, views};

verus! {

/// The file name that marks a directory as a starter.
pub const DESCRIPTOR_FILE: &'static str = "jump-start.yaml";

/// A descriptor file that was found, with its text.
#[derive(Debug, Clone)]
pub struct DescriptorFile {
    pub path: String,
    pub text: String,
}

/// The starters of one group, in the order they were found.
#[derive(Debug, Clone)]
pub struct StarterGroup {
    pub group: String,
    pub starters: Vec<LocalStarter>,
}

/// The result of indexing an instance.
#[derive(Debug, Clone)]
pub struct StarterIndex {
    /// One entry per group name, in the order the groups were first found.
    pub groups: Vec<StarterGroup>,
    /// Paths of descriptors that could not be read as YAML.
    pub rejected: Vec<String>,
}

/// Paths inside dependency or tooling directories hold no starters.
pub open spec fn excluded_spec(path: Seq<char>) -> bool {
    contains_spec(path, "node_modules"@) || contains_spec(path, "jump-start-tools"@)
}

/// Whether a found descriptor is ignored because of where it lies.
pub fn is_excluded_path(path: &str) -> (r: bool)
    ensures
        r == excluded_spec(path@),
{
    contains_text(path, "node_modules") || contains_text(path, "jump-start-tools")
}

/// The group and the name of the starter whose descriptor is at `path`:
/// the names of the grandparent and of the parent directory. `None` when
/// the file is not named `jump-start.yaml` or lies less than two levels deep.
pub open spec fn location_spec(path: Seq<char>) -> Option<(Seq<char>, Seq<char>)> {
    let c = components(path);
    if c.len() >= 3 && c.last() == "jump-start.yaml"@ {
        Some((c[c.len() - 3], c[c.len() - 2]))
    } else {
        None
    }
}

pub fn starter_location(path: &str) -> (r: Option<(String, String)>)
    ensures
        match location_spec(path@) {
            Some((g, n)) => r matches Some((rg, rn)) && rg@ == g && rn@ == n,
            None => r is None,
        },
{
    let c = path_components(path);
    let k = c.len();
    if k < 3 {
        return None;
    }
    let descriptor = String::from_str(DESCRIPTOR_FILE);
    assert(views(c@).last() == c[k - 1]@);
    if !(c[k - 1] == descriptor) {
        return None;
    }
    proof {
        assert(views(c@)[k - 3] == c[k - 3]@);
        assert(views(c@)[k - 2] == c[k - 2]@);
    }
    Some((c[k - 3].clone(), c[k - 2].clone()))
}

/// How one found descriptor is treated.
pub enum Indexed {
    /// It is not named `jump-start.yaml`, lies in an excluded directory or
    /// not two levels below anything.
    Ignored,
    /// Its text is not YAML.
    Rejected(JumpStartError),
    Found(LocalStarter),
}

/// The descriptor is indexed as a starter.
pub open spec fn accepted_spec(f: DescriptorFile) -> bool {
    !excluded_spec(f.path@) && location_spec(f.path@) is Some && yaml_accepts(f.text@)
}

/// The descriptor is found but cannot be read.
pub open spec fn rejected_spec(f: DescriptorFile) -> bool {
    !excluded_spec(f.path@) && location_spec(f.path@) is Some && !yaml_accepts(f.text@)
}

/// Turns one found descriptor into a starter record.
pub fn index_descriptor(f: &DescriptorFile) -> (r: Indexed)
    ensures
        accepted_spec(*f) <==> r is Found,
        rejected_spec(*f) <==> r is Rejected,
        r matches Indexed::Found(s) ==> {
            &&& location_spec(f.path@) == Some((s.group@, s.name@))
            &&& s.wf()
            &&& s.config matches Some(c) && describes(c, f.text@)
        },
        r matches Indexed::Rejected(e) ==> e matches JumpStartError::DescriptorParse(p, _) && p@
            == f.path@,
{
    if is_excluded_path(f.path.as_str()) {
        return Indexed::Ignored;
    }
    match starter_location(f.path.as_str()) {
        None => Indexed::Ignored,
        Some((group, name)) => match StarterConfig::from_str(f.text.as_str()) {
            Err(message) => Indexed::Rejected(
                JumpStartError::DescriptorParse(f.path.clone(), message),
            ),
            Ok(config) => {
                let mut s = LocalStarter::new(group.as_str(), name.as_str());
                s.config = Some(config);
                Indexed::Found(s)
            },
        },
    }
}

/// The (group, name) of every accepted descriptor, in order.
pub open spec fn accepted_locations(files: Seq<DescriptorFile>) -> Seq<(Seq<char>, Seq<char>)>
    decreases files.len(),
{
    if files.len() == 0 {
        Seq::empty()
    } else {
        let init = accepted_locations(files.drop_last());
        if accepted_spec(files.last()) {
            init.push(location_spec(files.last().path@)->Some_0)
        } else {
            init
        }
    }
}

/// The paths of every rejected descriptor, in order.
pub open spec fn rejected_paths(files: Seq<DescriptorFile>) -> Seq<Seq<char>>
    decreases files.len(),
{
    if files.len() == 0 {
        Seq::empty()
    } else {
        let init = rejected_paths(files.drop_last());
        if rejected_spec(files.last()) {
            init.push(files.last().path@)
        } else {
            init
        }
    }
}

/// The names, in order, of the starters of group `g` among `locs`.
pub open spec fn names_in_group(locs: Seq<(Seq<char>, Seq<char>)>, g: Seq<char>) -> Seq<Seq<char>>
    decreases locs.len(),
{
    if locs.len() == 0 {
        Seq::empty()
    } else {
        let init = names_in_group(locs.drop_last(), g);
        if locs.last().0 == g {
            init.push(locs.last().1)
        } else {
            init
        }
    }
}

/// The names of a group's starters.
pub open spec fn starter_names(v: Seq<LocalStarter>) -> Seq<Seq<char>> {
    v.map_values(|s: LocalStarter| s.name@)
}

/// `groups` groups exactly the starters at `locs`: one entry per group
/// name, each holding that group's starters in order.
pub open spec fn groups_match(groups: Seq<StarterGroup>, locs: Seq<(Seq<char>, Seq<char>)>) -> bool {
    &&& forall|i: int, j: int|
        0 <= i < j < groups.len() ==> groups[i].group@ != groups[j].group@
    &&& forall|i: int|
        0 <= i < groups.len() ==> starter_names(#[trigger] groups[i].starters@) == names_in_group(
            locs,
            groups[i].group@,
        )
    &&& forall|i: int, k: int|
        0 <= i < groups.len() && 0 <= k < groups[i].starters.len() ==> {
            let s = #[trigger] groups[i].starters@[k];
            &&& s.group@ == groups[i].group@
            &&& s.wf()
            &&& s.config is Some
        }
    &&& forall|g: Seq<char>|
        (forall|i: int| 0 <= i < groups.len() ==> groups[i].group@ != g) ==> #[trigger] names_in_group(
            locs,
            g,
        ).len() == 0
}

/// `t` is a starter of one of `groups`.
pub open spec fn in_groups(groups: Seq<StarterGroup>, t: LocalStarter) -> bool {
    exists|i: int, k: int|
        0 <= i < groups.len() && 0 <= k < groups[i].starters.len() && groups[i].starters@[k] == t
}

/// `t` comes from one of the first `bound` descriptors of `files`: one that
/// is indexed, lies at `t`'s place and whose text `t`'s config holds.
pub open spec fn from_descriptor(files: Seq<DescriptorFile>, bound: int, t: LocalStarter) -> bool {
    exists|j: int|
        0 <= j < bound && j < files.len() && accepted_spec(files[j]) && location_spec(files[j].path@)
            == Some((t.group@, t.name@)) && (t.config matches Some(c) && describes(c, files[j].text@))
}

proof fn lemma_from_descriptor_grows(files: Seq<DescriptorFile>, b1: int, b2: int, t: LocalStarter)
    requires
        b1 <= b2,
        from_descriptor(files, b1, t),
    ensures
        from_descriptor(files, b2, t),
{
    let j = choose|j: int|
        0 <= j < b1 && j < files.len() && accepted_spec(files[j]) && location_spec(files[j].path@)
            == Some((t.group@, t.name@)) && (t.config matches Some(c) && describes(
            c,
            files[j].text@,
        ));
    assert(0 <= j < b2);
}

/// Indexes the descriptors found under an instance, in the order found.
/// Excluded paths and paths without a group directory are skipped; a
/// descriptor that is not YAML is skipped and its path reported.
pub fn parse_starters(files: Vec<DescriptorFile>) -> (r: StarterIndex)
    ensures
        groups_match(r.groups@, accepted_locations(files@)),
        forall|i: int, k: int|
            0 <= i < r.groups.len() && 0 <= k < r.groups[i].starters.len() ==> from_descriptor(
                files@,
                files.len() as int,
                #[trigger] r.groups[i].starters@[k],
            ),
        views(r.rejected@) == rejected_paths(files@),
{
    let mut groups: Vec<StarterGroup> = Vec::new();
    let mut rejected: Vec<String> = Vec::new();
    let mut i: usize = 0;
    assert(files@.take(0) =~= Seq::<DescriptorFile>::empty());
    assert(views(rejected@) =~= Seq::<Seq<char>>::empty());
    while i < files.len()
        invariant
            i <= files.len(),
            groups_match(groups@, accepted_locations(files@.take(i as int))),
            views(rejected@) == rejected_paths(files@.take(i as int)),
            forall|gi: int, k: int|
                0 <= gi < groups.len() && 0 <= k < groups[gi].starters.len() ==> from_descriptor(
                    files@,
                    i as int,
                    #[trigger] groups[gi].starters@[k],
                ),
        decreases files.len() - i,
    {
        let ghost before = files@.take(i as int);
        let ghost after = files@.take(i + 1);
        proof {
            assert(after.drop_last() =~= before);
            assert(after.last() == files[i as int]);
        }
        let f = &files[i];
        let ghost old_groups = groups@;
        match index_descriptor(f) {
            Indexed::Ignored => {},
            Indexed::Rejected(_) => {
                let ghost old_rej = views(rejected@);
                rejected.push(f.path.clone());
                assert(views(rejected@) =~= old_rej.push(f.path@));
            },
            Indexed::Found(s) => {
                proof {
                    assert(accepted_locations(after) == accepted_locations(before).push(
                        (s.group@, s.name@),
                    ));
                }
                let ghost st = s;
                add_to_group(&mut groups, s, Ghost(accepted_locations(before)));
                proof {
                    assert forall|gi: int, k: int|
                        0 <= gi < groups.len() && 0 <= k < groups[gi].starters.len() implies from_descriptor(
                        files@,
                        i + 1,
                        #[trigger] groups[gi].starters@[k],
                    ) by {
                        let t = groups[gi].starters@[k];
                        if t == st {
                            assert(files@[i as int] == *f);
                        } else {
                            let (i0, k0) = choose|i0: int, k0: int|
                                0 <= i0 < old_groups.len() && 0 <= k0 < old_groups[i0].starters.len()
                                    && old_groups[i0].starters@[k0] == t;
                            assert(from_descriptor(files@, i as int, old_groups[i0].starters@[k0]));
                            lemma_from_descriptor_grows(files@, i as int, i + 1, t);
                        }
                    }
                }
            },
        }
        proof {
            if groups@ == old_groups {
                assert forall|gi: int, k: int|
                    0 <= gi < groups.len() && 0 <= k < groups[gi].starters.len() implies from_descriptor(
                    files@,
                    i + 1,
                    #[trigger] groups[gi].starters@[k],
                ) by {
                    lemma_from_descriptor_grows(files@, i as int, i + 1, groups[gi].starters@[k]);
                }
            }
        }
        i += 1;
    }
    assert(files@.take(files.len() as int) =~= files@);
    StarterIndex { groups, rejected }
}

/// Adds a starter to its group, opening the group when it is new.
fn add_to_group(
    groups: &mut Vec<StarterGroup>,
    s: LocalStarter,
    Ghost(locs): Ghost<Seq<(Seq<char>, Seq<char>)>>,
)
    requires
        groups_match(old(groups)@, locs),
        s.wf(),
        s.config is Some,
    ensures
        groups_match(final(groups)@, locs.push((s.group@, s.name@))),
        forall|i: int, k: int|
            0 <= i < final(groups)@.len() && 0 <= k < final(groups)@[i].starters.len() ==> (
            #[trigger] final(groups)@[i].starters@[k] == s || in_groups(
                old(groups)@,
                final(groups)@[i].starters@[k],
            )),
{
    let ghost nl = locs.push((s.group@, s.name@));
    assert(nl.drop_last() =~= locs);
    let mut gi: usize = 0;
    while gi < groups.len()
        invariant
            gi <= groups.len(),
            groups@ == old(groups)@,
            forall|j: int| 0 <= j < gi ==> groups[j].group@ != s.group@,
        ensures
            gi <= groups.len(),
            groups@ == old(groups)@,
            forall|j: int| 0 <= j < gi ==> groups[j].group@ != s.group@,
            gi < groups.len() ==> groups[gi as int].group@ == s.group@,
        decreases groups.len() - gi,
    {
        if groups[gi].group == s.group {
            break;
        }
        gi += 1;
    }
    if gi < groups.len() {
        let ghost old_names = starter_names(groups[gi as int].starters@);
        let ghost g = groups[gi as int].group@;
        groups[gi].starters.push(s);
        proof {
            assert forall|i: int| 0 <= i < groups.len() implies #[trigger] groups[i].group
                == old(groups)@[i].group by {
                if i != gi {
                    assert(groups[i] == old(groups)@[i]);
                }
            }
            assert(names_in_group(nl, g) == names_in_group(locs, g).push(nl.last().1));
            assert(starter_names(groups[gi as int].starters@) =~= old_names.push(nl.last().1));
            assert forall|i: int|
                0 <= i < groups.len() implies starter_names(#[trigger] groups[i].starters@)
                == names_in_group(nl, groups[i].group@) by {
                if i != gi {
                    assert(groups[i] == old(groups)@[i]);
                }
            }
            assert forall|i: int, k: int|
                0 <= i < groups.len() && 0 <= k < groups[i].starters.len() implies {
                let t = #[trigger] groups[i].starters@[k];
                &&& t.group@ == groups[i].group@
                &&& t.wf()
                &&& t.config is Some
            } by {
                if i != gi {
                    assert(groups[i] == old(groups)@[i]);
                } else if k < groups[i].starters.len() - 1 {
                    assert(groups[i].starters@[k] == old(groups)@[i].starters@[k]);
                }
            }
            assert forall|h: Seq<char>|
                (forall|i: int| 0 <= i < groups.len() ==> groups[i].group@ != h) implies
                #[trigger] names_in_group(nl, h).len() == 0 by {
                assert(groups[gi as int].group@ != h);
                assert forall|i: int| 0 <= i < old(groups)@.len() implies old(groups)@[i].group@
                    != h by {
                    assert(groups[i].group == old(groups)@[i].group);
                }
                assert(names_in_group(locs, h).len() == 0);
            }
        }
    } else {
        let ghost g = s.group@;
        let ghost n = s.name@;
        let group = s.group.clone();
        let mut starters: Vec<LocalStarter> = Vec::new();
        starters.push(s);
        groups.push(StarterGroup { group, starters });
        proof {
            assert forall|i: int| 0 <= i < old(groups)@.len() implies #[trigger] groups[i].group
                == old(groups)@[i].group by {
                assert(groups[i] == old(groups)@[i]);
            }
            assert(names_in_group(locs, g).len() == 0);
            assert(starter_names(groups[gi as int].starters@) =~= names_in_group(locs, g).push(n));
            assert forall|i: int|
                0 <= i < groups.len() implies starter_names(#[trigger] groups[i].starters@)
                == names_in_group(nl, groups[i].group@) by {
                if i != gi {
                    assert(groups[i] == old(groups)@[i]);
                }
            }
            assert forall|i: int, k: int|
                0 <= i < groups.len() && 0 <= k < groups[i].starters.len() implies {
                let t = #[trigger] groups[i].starters@[k];
                &&& t.group@ == groups[i].group@
                &&& t.wf()
                &&& t.config is Some
            } by {
                if i != gi {
                    assert(groups[i] == old(groups)@[i]);
                }
            }
            assert forall|h: Seq<char>|
                (forall|i: int| 0 <= i < groups.len() ==> groups[i].group@ != h) implies
                #[trigger] names_in_group(nl, h).len() == 0 by {
                assert(groups[gi as int].group@ != h);
                assert forall|i: int| 0 <= i < old(groups)@.len() implies old(groups)@[i].group@
                    != h by {
                    assert(groups[i].group == old(groups)@[i].group);
                }
                assert(names_in_group(locs, h).len() == 0);
            }
        }
    }
}

} // verus!
