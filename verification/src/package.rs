//! Packaging the game's assets: which files a manifest names.
use vstd::prelude::*;

use crate::atlas::{image_paths, listed_paths};
use crate::text::{append, split_seq};

verus! {

/// The options of the asset packager.
pub struct Args {
    /// The manifest: one glob pattern per line, relative to its directory.
    pub manifest: String,
    /// The archive to create.
    pub output: String,
}

/// The glob patterns of a manifest in directory `parent`: each non-blank
/// line, trimmed, joined to `parent` with a `/`.
pub open spec fn patterns_of(parent: Seq<char>, manifest: Seq<char>) -> Seq<Seq<char>> {
    listed_paths(split_seq(manifest, '\n')).map_values(|l: Seq<char>| parent + seq!['/'] + l)
}

/// The glob patterns that a manifest names.
pub fn manifest_patterns(parent: &str, manifest: &str) -> (r: Vec<String>)
    ensures
        r@.map_values(|p: String| p@) == patterns_of(parent@, manifest@),
{
    let lines = image_paths(manifest);
    let ghost ls = lines@.map_values(|p: String| p@);
    let mut r: Vec<String> = Vec::new();
    let mut i: usize = 0;
    proof {
        reveal_strlit("/");
    }
    while i < lines.len()
        invariant
            i <= lines@.len(),
            ls == lines@.map_values(|p: String| p@),
            ls == listed_paths(split_seq(manifest@, '\n')),
            "/"@ == seq!['/'],
            r@.len() == i,
            forall|k: int| 0 <= k < i ==> #[trigger] r@[k]@ == parent@ + seq!['/'] + ls[k],
        decreases lines.len() - i,
    {
        let mut p = String::new();
        append(&mut p, parent);
        append(&mut p, "/");
        append(&mut p, lines[i].as_str());
        r.push(p);
        i = i + 1;
    }
    proof {
        assert(r@.map_values(|p: String| p@) =~= patterns_of(parent@, manifest@));
    }
    r
}

} // verus!
