//! The starter record that the preview site is built from: the
//! descriptor's fields laid out flat, with the starter's files.

use vstd::prelude::*;
use crate::starter::starter_path;
use crate::text::{lemma_split_two, split_on, split_spec, views};

verus! {

/// The `preview` section of a descriptor.
#[derive(Debug, Clone)]
pub struct StarterPreviewConfig {
    template: Option<String>,
    dependencies: Option<Vec<(String, String)>>,
}

impl StarterPreviewConfig {
    pub fn new(template: Option<String>, dependencies: Option<Vec<(String, String)>>) -> (r: Self)
        ensures
            r.template_spec() == template,
            r.dependencies_spec() == dependencies,
    {
        StarterPreviewConfig { template, dependencies }
    }

    pub closed spec fn template_spec(&self) -> Option<String> {
        self.template
    }

    pub closed spec fn dependencies_spec(&self) -> Option<Vec<(String, String)>> {
        self.dependencies
    }
}

/// One file of a starter: its path relative to the starter and its text.
#[derive(Debug, Clone)]
pub struct StarterFile {
    pub path: String,
    pub contents: String,
}

#[derive(Debug, Clone)]
pub struct Starter {
    /// Full path identifier (group/name)
    pub path: String,
    /// Group or category this starter belongs to
    pub group: String,
    /// Name of this starter within its group
    pub name: String,
    pub description: Option<String>,
    pub default_dir: Option<String>,
    pub main_file: Option<String>,
    pub preview: Option<StarterPreviewConfig>,
    pub files: Option<Vec<StarterFile>>,
}

impl Starter {
    /// A starter with only its place filled in.
    pub fn new(group: &str, name: &str) -> (r: Self)
        ensures
            r.group@ == group@,
            r.name@ == name@,
            r.path@ == starter_path(group@, name@),
            r.description is None,
            r.default_dir is None,
            r.main_file is None,
            r.preview is None,
            r.files is None,
    {
        let path = String::from_str(group).concat("/").concat(name);
        proof {
            reveal_strlit("/");
        }
        assert(path@ =~= starter_path(group@, name@));
        Starter {
            group: String::from_str(group),
            name: String::from_str(name),
            path,
            description: None,
            default_dir: None,
            main_file: None,
            preview: None,
            files: None,
        }
    }

    /// Parse a path (group/name) into a Starter
    pub fn from_path(path: &str) -> (r: Option<Self>)
        ensures
            r is Some <==> split_spec(path@, '/').len() == 2,
            r matches Some(s) ==> {
                &&& s.group@ == split_spec(path@, '/')[0]
                &&& s.name@ == split_spec(path@, '/')[1]
                &&& s.path@ == path@
                &&& s.description is None
                &&& s.default_dir is None
                &&& s.main_file is None
                &&& s.preview is None
                &&& s.files is None
            },
    {
        let parts = split_on(path, '/');
        if parts.len() != 2 {
            return None;
        }
        proof {
            assert(views(parts@)[0] == parts[0]@);
            assert(views(parts@)[1] == parts[1]@);
            lemma_split_two(path@, '/');
        }
        Some(Self::new(parts[0].as_str(), parts[1].as_str()))
    }
}

} // verus!
