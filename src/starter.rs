//! Starter records and the identifiers that name them.

use vstd::prelude::*;
use crate::error::JumpStartError;
use crate::text::{lemma_split_first, lemma_split_two, split_on, split_spec, views};

verus! {

/// The repository that a remote identifier names when it leaves it out.
pub const DEFAULT_REPOSITORY: &'static str = "jump-start";

/// The `preview` section of a starter descriptor.
#[derive(Debug, Clone)]
pub struct PreviewConfig {
    pub template: Option<String>,
    /// Package name to version, in the order the descriptor lists them.
    pub dependencies: Option<Vec<(String, String)>>,
}

/// What a starter's descriptor file declares. Every field may be absent.
#[derive(Debug, Clone)]
pub struct StarterConfig {
    pub description: Option<String>,
    /// Where the starter's files go when no destination is given.
    pub default_dir: Option<String>,
    pub main_file: Option<String>,
    pub preview: Option<PreviewConfig>,
}

/// One file of a starter: its path relative to the starter and its text.
#[derive(Debug, Clone)]
pub struct LocalStarterFile {
    pub path: String,
    pub contents: String,
}

/// A starter kept in a GitHub repository:
/// `@GITHUB_USERNAME/[GITHUB_REPO]/GROUP/NAME`.
#[derive(Debug, Clone)]
pub struct RemoteStarter {
    pub github_username: String,
    pub github_repo: String,
    pub group: String,
    pub name: String,
}

/// A starter of a local instance, found at `<instance>/<group>/<name>`.
#[derive(Debug, Clone)]
pub struct LocalStarter {
    /// Full path identifier (group/name)
    pub path: String,
    /// Group or category this starter belongs to
    pub group: String,
    /// Name of this starter within its group
    pub name: String,
    /// Configuration stored in the starter's descriptor file
    pub config: Option<StarterConfig>,
}

/// A parsed starter identifier.
#[derive(Debug, Clone)]
pub enum StarterRef {
    Local(LocalStarter),
    Remote(RemoteStarter),
}

/// `group/name`.
pub open spec fn starter_path(group: Seq<char>, name: Seq<char>) -> Seq<char> {
    group + seq!['/'] + name
}

impl LocalStarter {
    /// The fields are those that the local identifier `id` names.
    pub open spec fn parsed_from(&self, id: Seq<char>) -> bool {
        &&& split_spec(id, '/').len() == 2
        &&& self.group@ == split_spec(id, '/')[0]
        &&& self.name@ == split_spec(id, '/')[1]
        &&& self.wf()
    }

    /// The path identifier is the group and the name joined by `/`.
    pub open spec fn wf(&self) -> bool {
        self.path@ == starter_path(self.group@, self.name@)
    }

    pub fn new(group: &str, name: &str) -> (r: Self)
        ensures
            r.group@ == group@,
            r.name@ == name@,
            r.wf(),
            r.config is None,
    {
        proof {
            reveal_strlit("/");
        }
        let path = String::from_str(group).concat("/").concat(name);
        assert(path@ =~= starter_path(group@, name@));
        LocalStarter {
            group: String::from_str(group),
            name: String::from_str(name),
            path,
            config: None,
        }
    }

    /// Parses `group/name`: exactly two `/`-separated pieces.
    pub fn from_path(path: &str) -> (r: Option<Self>)
        ensures
            r is Some <==> split_spec(path@, '/').len() == 2,
            r matches Some(s) ==> s.parsed_from(path@) && s.path@ == path@ && s.config is None,
    {
        let parts = split_on(path, '/');
        if parts.len() != 2 {
            return None;
        }
        proof {
            assert(views(parts@)[0] == parts[0]@);
            assert(views(parts@)[1] == parts[1]@);
            lemma_split_two(path@, '/');
        }
        Some(Self::new(parts[0].as_str(), parts[1].as_str()))
    }
}

/// The repository named by a remote identifier split into `parts`.
pub open spec fn remote_repo_spec(parts: Seq<Seq<char>>) -> Seq<char> {
    if parts.len() == 3 {
        "jump-start"@
    } else {
        parts[1]
    }
}

/// A remote identifier starts with `@` and has three or four segments.
pub open spec fn is_remote_identifier(s: Seq<char>) -> bool {
    &&& s.len() > 0
    &&& s[0] == '@'
    &&& (split_spec(s, '/').len() == 3 || split_spec(s, '/').len() == 4)
}

impl RemoteStarter {
    /// The fields are those that the remote identifier `id` names.
    pub open spec fn parsed_from(&self, id: Seq<char>) -> bool {
        let parts = split_spec(id, '/');
        let k = parts.len() as int;
        &&& self.github_username@ == parts[0].drop_first()
        &&& self.github_repo@ == remote_repo_spec(parts)
        &&& self.group@ == parts[k - 2]
        &&& self.name@ == parts[k - 1]
    }

    pub fn new(github_username: &str, github_repo: &str, group: &str, name: &str) -> (r: Self)
        ensures
            r.github_username@ == github_username@,
            r.github_repo@ == github_repo@,
            r.group@ == group@,
            r.name@ == name@,
    {
        RemoteStarter {
            github_username: String::from_str(github_username),
            github_repo: String::from_str(github_repo),
            group: String::from_str(group),
            name: String::from_str(name),
        }
    }

    /// Parses `@GITHUB_USERNAME/[GITHUB_REPO]/GROUP/NAME`. With three
    /// segments the repository is `jump-start`; with four it is the second.
    /// Any other form is an `InvalidIdentifier` error naming `path`.
    pub fn from_path(path: &str) -> (r: Result<Self, JumpStartError>)
        ensures
            r is Ok <==> is_remote_identifier(path@),
            r matches Ok(s) ==> s.parsed_from(path@),
            r matches Err(e) ==> e matches JumpStartError::InvalidIdentifier(t) && t@ == path@,
    {
        let n = path.unicode_len();
        if n == 0 || path.get_char(0) != '@' {
            return Err(JumpStartError::InvalidIdentifier(String::from_str(path)));
        }
        let parts = split_on(path, '/');
        let k = parts.len();
        if k != 3 && k != 4 {
            return Err(JumpStartError::InvalidIdentifier(String::from_str(path)));
        }
        proof {
            lemma_split_first(path@, '/');
            assert(views(parts@)[0] == parts[0]@);
            assert(views(parts@)[1] == parts[1]@);
            assert(views(parts@)[k - 2] == parts[k - 2]@);
            assert(views(parts@)[k - 1] == parts[k - 1]@);
        }
        let first = parts[0].as_str();
        let username = first.substring_char(1, first.unicode_len());
        assert(username@ =~= parts[0]@.drop_first());
        if k == 3 {
            Ok(Self::new(username, DEFAULT_REPOSITORY, parts[1].as_str(), parts[2].as_str()))
        } else {
            Ok(Self::new(username, parts[1].as_str(), parts[2].as_str(), parts[3].as_str()))
        }
    }
}

/// Classifies an identifier. One that starts with `@` is remote and must
/// have three or four segments; any other is local, and is a starter only
/// when it has the form `group/name`.
pub fn parse_identifier(s: &str) -> (r: Result<Option<StarterRef>, JumpStartError>)
    ensures
        s@.len() > 0 && s@[0] == '@' ==> match r {
            Ok(Some(StarterRef::Remote(rs))) => is_remote_identifier(s@) && rs.parsed_from(s@),
            Err(JumpStartError::InvalidIdentifier(t)) => !is_remote_identifier(s@) && t@ == s@,
            _ => false,
        },
        !(s@.len() > 0 && s@[0] == '@') ==> match r {
            Ok(Some(StarterRef::Local(l))) => split_spec(s@, '/').len() == 2 && l.parsed_from(s@),
            Ok(None) => split_spec(s@, '/').len() != 2,
            _ => false,
        },
{
    if s.unicode_len() > 0 && s.get_char(0) == '@' {
        match RemoteStarter::from_path(s) {
            Ok(rs) => Ok(Some(StarterRef::Remote(rs))),
            Err(e) => Err(e),
        }
    } else {
        match LocalStarter::from_path(s) {
            Some(ls) => Ok(Some(StarterRef::Local(ls))),
            None => Ok(None),
        }
    }
}

/// The command line shown for a starter: `npx degit ...` when `degit_mode`
/// is `"true"`, else `jump-start add group/name`.
pub open spec fn starter_command_spec(
    group: Seq<char>,
    name: Seq<char>,
    github_username: Seq<char>,
    github_repo: Seq<char>,
    degit: bool,
) -> Seq<char> {
    if degit {
        "npx degit "@ + github_username + "/"@ + github_repo + "#"@ + group + "/"@ + name + " "@
            + name
    } else {
        "jump-start add "@ + group + "/"@ + name
    }
}

pub fn get_starter_command(
    starter: &LocalStarter,
    github_username: &str,
    github_repo: &str,
    degit_mode: &str,
) -> (r: String)
    ensures
        r@ == starter_command_spec(
            starter.group@,
            starter.name@,
            github_username@,
            github_repo@,
            degit_mode@ == "true"@,
        ),
{
    proof {
        reveal_strlit("true");
    }
    let degit = degit_mode.unicode_len() == 4 && degit_mode.get_char(0) == 't'
        && degit_mode.get_char(1) == 'r' && degit_mode.get_char(2) == 'u' && degit_mode.get_char(3)
        == 'e';
    proof {
        if degit {
            assert(degit_mode@ =~= "true"@);
        }
        if degit_mode@ == "true"@ {
            assert(degit_mode@[0] == 't' && degit_mode@[1] == 'r' && degit_mode@[2] == 'u'
                && degit_mode@[3] == 'e');
        }
    }
    if degit {
        String::from_str("npx degit ").concat(github_username).concat("/").concat(
            github_repo,
        ).concat("#").concat(starter.group.as_str()).concat("/").concat(
            starter.name.as_str(),
        ).concat(" ").concat(starter.name.as_str())
    } else {
        String::from_str("jump-start add ").concat(starter.group.as_str()).concat("/").concat(
            starter.name.as_str(),
        )
    }
}

} // verus!
