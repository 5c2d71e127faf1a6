//! Where a starter comes from and where its files go: the plan for using a
//! starter, the remote fetch layout and the destination policy.

use vstd::prelude::*;
use crate::config::{Config, default_index, get_default_instance};
use crate::descriptor::{yaml_accepts, yaml_string_at};
use crate::error::JumpStartError;
use crate::text::split_spec;
use crate::starter::{LocalStarter, RemoteStarter, StarterConfig, StarterRef, parse_identifier};

verus! {

/// `rel` placed under `base`, as `Path::join` does it: an absolute `rel`
/// replaces `base`, and one `/` stands between the two.
pub open spec fn join_path_spec(base: Seq<char>, rel: Seq<char>) -> Seq<char> {
    if rel.len() > 0 && rel[0] == '/' {
        rel
    } else if base.len() == 0 {
        rel
    } else if base.last() == '/' {
        base + rel
    } else {
        base + seq!['/'] + rel
    }
}

pub fn join_path(base: &str, rel: &str) -> (r: String)
    ensures
        r@ == join_path_spec(base@, rel@),
{
    let bl = base.unicode_len();
    if rel.unicode_len() > 0 && rel.get_char(0) == '/' {
        String::from_str(rel)
    } else if bl == 0 {
        String::from_str(rel)
    } else if base.get_char(bl - 1) == '/' {
        String::from_str(base).concat(rel)
    } else {
        proof {
            reveal_strlit("/");
        }
        let r = String::from_str(base).concat("/").concat(rel);
        assert(r@ =~= base@ + seq!['/'] + rel@);
        r
    }
}

/// The current directory, where files go when nothing else is said.
pub open spec fn current_dir() -> Seq<char> {
    seq!['.']
}

/// The destination policy: an explicit destination wins; else the
/// descriptor's default directory when it is present and not empty; else
/// the current directory.
pub open spec fn destination_spec(dest: Option<Seq<char>>, default_dir: Option<Seq<char>>) -> Seq<
    char,
> {
    match dest {
        Some(d) => d,
        None => match default_dir {
            Some(d) => if d.len() > 0 {
                d
            } else {
                current_dir()
            },
            None => current_dir(),
        },
    }
}

/// The precedence of destinations, and an empty default directory counting
/// as no default directory.
pub proof fn lemma_destination_precedence(dest: Option<Seq<char>>, default_dir: Option<Seq<char>>)
    ensures
        dest matches Some(d) ==> destination_spec(dest, default_dir) == d,
        dest is None && default_dir is Some && default_dir->Some_0.len() > 0 ==> destination_spec(
            dest,
            default_dir,
        ) == default_dir->Some_0,
        dest is None && (default_dir is None || default_dir == Some(Seq::<char>::empty()))
            ==> destination_spec(dest, default_dir) == current_dir(),
        destination_spec(dest, Some(Seq::<char>::empty())) == destination_spec(dest, None),
{
}

pub open spec fn opt_view(o: Option<&str>) -> Option<Seq<char>> {
    match o {
        Some(s) => Some(s@),
        None => None,
    }
}

pub open spec fn default_dir_of(config: Option<&StarterConfig>) -> Option<Seq<char>> {
    match config {
        Some(c) => match c.default_dir {
            Some(d) => Some(d@),
            None => None,
        },
        None => None,
    }
}

/// Applies the destination policy to a starter whose descriptor is
/// `config` (`None` when it has none).
pub fn destination_for(dest: Option<&str>, config: Option<&StarterConfig>) -> (r: String)
    ensures
        r@ == destination_spec(opt_view(dest), default_dir_of(config)),
{
    proof {
        reveal_strlit(".");
    }
    match dest {
        Some(d) => String::from_str(d),
        None => {
            let dir: Option<&String> = match config {
                Some(c) => match &c.default_dir {
                    Some(d) => Some(d),
                    None => None,
                },
                None => None,
            };
            match dir {
                Some(d) => if d.as_str().unicode_len() > 0 {
                    d.clone()
                } else {
                    let r = String::from_str(".");
                    assert(r@ =~= current_dir());
                    r
                },
                None => {
                    let r = String::from_str(".");
                    assert(r@ =~= current_dir());
                    r
                },
            }
        },
    }
}

/// The default directory that a descriptor text declares, if any.
pub open spec fn declared_default_dir(descriptor: Option<&str>) -> Option<Seq<char>> {
    match descriptor {
        Some(t) => yaml_string_at(t@, "defaultDir"@),
        None => None,
    }
}

/// The final destination for the starter in `starter_dir`, given the text
/// of its descriptor (`None` when it has no descriptor file), which is read
/// only when no destination is given. A descriptor that is not YAML is an
/// error naming `starter_dir`.
pub fn get_final_dest(starter_dir: &str, dest: Option<&str>, descriptor: Option<&str>) -> (r:
    Result<String, JumpStartError>)
    ensures
        dest is Some || descriptor is None ==> r is Ok,
        dest is None && descriptor is Some ==> (r is Ok <==> yaml_accepts(descriptor->Some_0@)),
        r matches Ok(p) ==> p@ == destination_spec(
            opt_view(dest),
            declared_default_dir(descriptor),
        ),
        r matches Err(e) ==> e matches JumpStartError::DescriptorParse(p, _) && p@ == starter_dir@,
{
    match dest {
        Some(_) => Ok(destination_for(dest, None)),
        None => match descriptor {
            None => Ok(destination_for(None, None)),
            Some(t) => match StarterConfig::from_str(t) {
                Ok(c) => Ok(destination_for(None, Some(&c))),
                Err(message) => Err(
                    JumpStartError::DescriptorParse(String::from_str(starter_dir), message),
                ),
            },
        },
    }
}

/// Where a remote starter is fetched from and kept, relative to the cache
/// root.
#[derive(Debug, Clone)]
pub struct FetchPlan {
    /// The tarball of the repository's default branch.
    pub url: String,
    /// `github/<account>/<repository>`.
    pub cache_dir: String,
    /// The archive inside `cache_dir`.
    pub archive_path: String,
    /// `<group>/<name>`, the subdirectory taken from the archive.
    pub subdir: String,
    /// Where that subdirectory is extracted, inside `cache_dir`.
    pub extract_dir: String,
}

/// The file name of a cached archive.
pub const ARCHIVE_FILE: &'static str = "HEAD.tar.gz";

pub open spec fn archive_url_spec(s: RemoteStarter) -> Seq<char> {
    "https://www.github.com/"@ + s.github_username@ + "/"@ + s.github_repo@
        + "/archive/HEAD.tar.gz"@
}

pub open spec fn cache_dir_spec(s: RemoteStarter) -> Seq<char> {
    "github/"@ + s.github_username@ + "/"@ + s.github_repo@
}

pub open spec fn subdir_spec(s: RemoteStarter) -> Seq<char> {
    s.group@ + "/"@ + s.name@
}

/// The layout of the cache for one remote starter.
pub fn fetch_plan(starter: &RemoteStarter) -> (r: FetchPlan)
    ensures
        r.url@ == archive_url_spec(*starter),
        r.cache_dir@ == cache_dir_spec(*starter),
        r.archive_path@ == cache_dir_spec(*starter) + "/"@ + ARCHIVE_FILE@,
        r.subdir@ == subdir_spec(*starter),
        r.extract_dir@ == cache_dir_spec(*starter) + "/"@ + subdir_spec(*starter),
{
    let url = String::from_str("https://www.github.com/").concat(
        starter.github_username.as_str(),
    ).concat("/").concat(starter.github_repo.as_str()).concat("/archive/HEAD.tar.gz");
    let cache_dir = String::from_str("github/").concat(starter.github_username.as_str()).concat(
        "/",
    ).concat(starter.github_repo.as_str());
    let subdir = starter.group.clone().concat("/").concat(starter.name.as_str());
    let archive_path = cache_dir.clone().concat("/").concat(ARCHIVE_FILE);
    let extract_dir = cache_dir.clone().concat("/").concat(subdir.as_str());
    FetchPlan { url, cache_dir, archive_path, subdir, extract_dir }
}

/// An HTTP status is a success in `200..=299`.
pub open spec fn status_ok(status: u16) -> bool {
    200 <= status <= 299
}

/// Judges the answer to the archive download: any status outside the
/// success range fails with `DownloadFailed`, naming the URL.
pub fn check_download_status(url: &str, status: u16) -> (r: Result<(), JumpStartError>)
    ensures
        r is Ok <==> status_ok(status),
        r matches Err(e) ==> e matches JumpStartError::DownloadFailed(u) && u@ == url@,
{
    if 200 <= status && status <= 299 {
        Ok(())
    } else {
        Err(JumpStartError::DownloadFailed(String::from_str(url)))
    }
}

/// What using a starter comes to.
#[derive(Debug, Clone)]
pub enum UsePlan {
    /// Copy the directory `source_dir` of a local instance.
    Local { starter: LocalStarter, source_dir: String },
    /// Fetch the archive, extract the subdirectory, copy it.
    Remote { starter: RemoteStarter, fetch: FetchPlan },
}

/// Decides how the starter named by `starter_identifier` is used: a local
/// one is copied from the default instance, a remote one is fetched.
pub fn use_starter(config: &Config, starter_identifier: &str) -> (r: Result<UsePlan, JumpStartError>)
    requires
        config.instances.len() > 0,
    ensures
        match r {
            Ok(UsePlan::Local { starter, source_dir }) => {
                &&& starter.parsed_from(starter_identifier@)
                &&& source_dir@ == join_path_spec(
                    config.instances[default_index(config.instances@)].path@,
                    starter.path@,
                )
            },
            Ok(UsePlan::Remote { starter, fetch }) => {
                &&& starter.parsed_from(starter_identifier@)
                &&& fetch.url@ == archive_url_spec(starter)
                &&& fetch.subdir@ == subdir_spec(starter)
                &&& fetch.extract_dir@ == cache_dir_spec(starter) + "/"@ + subdir_spec(starter)
            },
            Err(JumpStartError::InvalidIdentifier(s)) => s@ == starter_identifier@,
            Err(JumpStartError::UnknownStarter(s)) => s@ == starter_identifier@,
            Err(_) => false,
        },
        r matches Ok(UsePlan::Remote { .. }) <==> starter_identifier@.len() > 0
            && starter_identifier@[0] == '@' && crate::starter::is_remote_identifier(
            starter_identifier@,
        ),
        r matches Ok(UsePlan::Local { .. }) <==> !(starter_identifier@.len() > 0
            && starter_identifier@[0] == '@') && split_spec(starter_identifier@, '/').len() == 2,
        r matches Err(JumpStartError::UnknownStarter(_)) <==> !(starter_identifier@.len() > 0
            && starter_identifier@[0] == '@') && split_spec(starter_identifier@, '/').len() != 2,
        r matches Err(JumpStartError::InvalidIdentifier(_)) <==> starter_identifier@.len() > 0
            && starter_identifier@[0] == '@' && !crate::starter::is_remote_identifier(
            starter_identifier@,
        ),
{
    match parse_identifier(starter_identifier) {
        Err(e) => Err(e),
        Ok(None) => Err(JumpStartError::UnknownStarter(String::from_str(starter_identifier))),
        Ok(Some(StarterRef::Remote(starter))) => {
            let fetch = fetch_plan(&starter);
            Ok(UsePlan::Remote { starter, fetch })
        },
        Ok(Some(StarterRef::Local(starter))) => {
            let instance = get_default_instance(config);
            let source_dir = join_path(instance.path.as_str(), starter.path.as_str());
            Ok(UsePlan::Local { starter, source_dir })
        },
    }
}

} // verus!
