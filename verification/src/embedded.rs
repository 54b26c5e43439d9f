//! The bundled checker-server archive.
//!
//! A full build ships the server as a zip archive whose single root
//! directory holds `languagetool-server.jar`; the application extracts it
//! (in a child process, so a crash cannot take the session down) and spawns
//! the server. The path arithmetic for that lives here. This build carries
//! no archive, so extraction always fails and the application starts an
//! installed checker launcher instead.

use vstd::prelude::*;
use vstd::string::{StringSliceAdditionalSpecFns, StrSliceExecFns};

use crate::markup::copy_range;

verus! {

/// The bytes of the bundled checker-server archive. This build bundles no
/// archive, so the result is empty and is no valid zip; extraction reports
/// an error, and the application starts an installed checker instead.
pub fn language_tool_binary() -> (r: Vec<u8>)
    ensures
        r@ == Seq::<u8>::empty(),
{
    let r: Vec<u8> = Vec::new();
    proof {
        assert(r@ =~= Seq::<u8>::empty());
    }
    r
}

/// Why extracting the bundled server failed.
#[derive(Clone, Debug)]
pub enum ExtractionError {
    /// The path of the running executable could not be determined.
    GettingCurrentExecutable(String),
    /// Spawning the extraction process failed.
    RunningExecutable(String),
    /// The extraction process reported failure; its error output.
    ErrorExtracting(String),
}

/// The index of the first `/` of `name`, or its length when it has none.
pub open spec fn first_slash(name: Seq<u8>) -> int
    decreases name.len(),
{
    if name.len() == 0 {
        0
    } else if name[0] == '/' as u8 {
        0
    } else {
        1 + first_slash(name.drop_first())
    }
}

pub proof fn lemma_first_slash_bounds(name: Seq<u8>)
    ensures
        0 <= first_slash(name) <= name.len(),
    decreases name.len(),
{
    if name.len() > 0 && name[0] != '/' as u8 {
        lemma_first_slash_bounds(name.drop_first());
    }
}

/// The root component of an archived file's path: everything before its
/// first `/`. The archive's first file name determines the directory the
/// server unpacks into.
pub fn archive_root(name: &Vec<u8>) -> (r: Vec<u8>)
    ensures
        r@ == name@.take(first_slash(name@)),
{
    proof {
        lemma_first_slash_bounds(name@);
    }
    let mut i: usize = 0;
    while i < name.len() && name[i] != '/' as u8
        invariant
            i <= name@.len(),
            forall|k: int| 0 <= k < i ==> name@[k] != '/' as u8,
        decreases name@.len() - i,
    {
        i = i + 1;
    }
    proof {
        lemma_first_slash_take(name@, i as int);
    }
    copy_range(name, 0, i)
}

proof fn lemma_first_slash_take(name: Seq<u8>, i: int)
    requires
        0 <= i <= name.len(),
        forall|k: int| 0 <= k < i ==> name[k] != '/' as u8,
        i < name.len() ==> name[i] == '/' as u8,
    ensures
        first_slash(name) == i,
    decreases name.len(),
{
    if name.len() > 0 && name[0] != '/' as u8 {
        assert(forall|k: int| 0 <= k < i - 1 ==> name.drop_first()[k] != '/' as u8);
        lemma_first_slash_take(name.drop_first(), i - 1);
    }
}

/// The path of the server executable inside the extracted archive:
/// `dir/root/languagetool-server.jar`.
pub fn server_jar_path(dir: &String, root: &Vec<u8>) -> (r: Vec<u8>)
    ensures
        r@ == vstd::utf8::encode_utf8(dir@) + "/".spec_bytes() + root@
            + "/languagetool-server.jar".spec_bytes(),
{
    let mut r = dir.as_str().as_bytes_vec();
    let mut slash = "/".as_bytes_vec();
    r.append(&mut slash);
    let mut root_copy = copy_range(root, 0, root.len());
    r.append(&mut root_copy);
    let mut jar = "/languagetool-server.jar".as_bytes_vec();
    r.append(&mut jar);
    proof {
        assert(root@.subrange(0, root@.len() as int) =~= root@);
    }
    r
}

} // verus!
