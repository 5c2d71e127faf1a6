//! The files of a starter as they are listed for a preview: everything
//! below the starter's directory except its metadata files.

use vstd::prelude::*;
use crate::index::DESCRIPTOR_FILE;
use crate::starter::LocalStarterFile;
use crate::text::{components, path_components};

verus! {

/// A metadata file that is not one of the starter's own files.
pub open spec fn metadata_name(name: Seq<char>) -> bool {
    name == "jump-start.yaml"@ || name == "degit.json"@
}

/// The file is listed: its name is no metadata file's name.
pub open spec fn listed(f: LocalStarterFile) -> bool {
    let c = components(f.path@);
    !(c.len() > 0 && metadata_name(c.last()))
}

/// The listed files of `files`, in order.
pub open spec fn listed_files(files: Seq<LocalStarterFile>) -> Seq<LocalStarterFile>
    decreases files.len(),
{
    if files.len() == 0 {
        Seq::empty()
    } else {
        let init = listed_files(files.drop_last());
        if listed(files.last()) {
            init.push(files.last())
        } else {
            init
        }
    }
}

/// The path of the placeholder listed for a starter without a directory.
pub const SAMPLE_PATH: &'static str = "example.file";

/// The text of that placeholder.
pub const SAMPLE_CONTENTS: &'static str = "// This is a sample file content\nconsole.log('Hello world');\n";

/// Whether the file at the relative path `path` is listed.
pub fn is_listed(path: &str) -> (r: bool)
    ensures
        r == !({
            let c = components(path@);
            c.len() > 0 && metadata_name(c.last())
        }),
{
    let c = path_components(path);
    if c.len() == 0 {
        return true;
    }
    let last = &c[c.len() - 1];
    assert(crate::text::views(c@).last() == last@);
    let descriptor = String::from_str(DESCRIPTOR_FILE);
    let degit = String::from_str("degit.json");
    !(*last == descriptor || *last == degit)
}

/// The files listed for a starter, given the readable files found below its
/// directory (relative path and text), or `None` when the directory does not
/// exist, in which case a placeholder file is listed.
pub fn get_starter_files(found: Option<Vec<LocalStarterFile>>) -> (r: Vec<LocalStarterFile>)
    ensures
        match found {
            Some(v) => r@ == listed_files(v@),
            None => r.len() == 1 && r[0].path@ == SAMPLE_PATH@ && r[0].contents@
                == SAMPLE_CONTENTS@,
        },
{
    match found {
        None => {
            let mut out: Vec<LocalStarterFile> = Vec::new();
            out.push(
                LocalStarterFile {
                    path: String::from_str(SAMPLE_PATH),
                    contents: String::from_str(SAMPLE_CONTENTS),
                },
            );
            out
        },
        Some(v) => {
            let ghost all = v@;
            let mut rest = v;
            let n = rest.len();
            let mut out: Vec<LocalStarterFile> = Vec::new();
            let mut i: usize = 0;
            assert(rest@ =~= all.subrange(0, n as int));
            assert(all.take(0) =~= Seq::<LocalStarterFile>::empty());
            while i < n
                invariant
                    n == all.len(),
                    i <= n,
                    rest@ == all.subrange(i as int, n as int),
                    out@ == listed_files(all.take(i as int)),
                decreases n - i,
            {
                let f = rest.remove(0);
                proof {
                    assert(f == all[i as int]);
                    assert(rest@ =~= all.subrange(i + 1, n as int));
                    assert(all.take(i + 1).drop_last() =~= all.take(i as int));
                    assert(all.take(i + 1).last() == f);
                }
                if is_listed(f.path.as_str()) {
                    out.push(f);
                }
                i += 1;
            }
            assert(all.take(n as int) =~= all);
            out
        },
    }
}

} // verus!
