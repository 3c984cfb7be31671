//! Files of the game's assets: directory entries, and an archive of files
//! held in memory, found by path.
use vstd::prelude::*;

use crate::error::Error;
use crate::levelselect::{less_text, text_less};
use crate::text::{append, same_text, split_on, split_seq};

verus! {

/// What a directory entry is.
#[derive(Debug, Clone, Copy, PartialEq, Eq, Structural)]
pub enum DirEntryType {
    Directory,
    File,
}

/// An entry of a directory.
pub struct DirEntry {
    pub full_path: String,
    pub name: String,
    pub file_type: DirEntryType,
}

/// The parts of a path between its `/`s, without empty and `.` parts.
pub open spec fn keep_parts(ps: Seq<Seq<char>>) -> Seq<Seq<char>>
    decreases ps.len(),
{
    if ps.len() == 0 {
        Seq::empty()
    } else {
        let r = keep_parts(ps.drop_last());
        let p = ps.last();
        if p.len() == 0 || p == seq!['.'] {
            r
        } else {
            r.push(p)
        }
    }
}

pub open spec fn path_parts(p: Seq<char>) -> Seq<Seq<char>> {
    keep_parts(split_seq(p, '/'))
}

/// The parts with each `..` taking away the part before it; `None` where
/// there is none to take away.
pub open spec fn resolve(ps: Seq<Seq<char>>) -> Option<Seq<Seq<char>>>
    decreases ps.len(),
{
    if ps.len() == 0 {
        Some(Seq::empty())
    } else {
        match resolve(ps.drop_last()) {
            None => None,
            Some(r) => if ps.last() == seq!['.', '.'] {
                if r.len() > 0 {
                    Some(r.drop_last())
                } else {
                    None
                }
            } else {
                Some(r.push(ps.last()))
            },
        }
    }
}

/// The parts of a path once `.` and `..` are resolved.
pub open spec fn normal_path(p: Seq<char>) -> Option<Seq<Seq<char>>> {
    resolve(path_parts(p))
}

pub open spec fn parts_view(v: Seq<String>) -> Seq<Seq<char>> {
    v.map_values(|s: String| s@)
}

/// Whether the parts of path `a` sort before those of path `b`: part by
/// part, a path before any longer path it starts.
pub open spec fn parts_less(a: Seq<Seq<char>>, b: Seq<Seq<char>>) -> bool
    decreases a.len(),
{
    if b.len() == 0 {
        false
    } else if a.len() == 0 {
        true
    } else if a[0] != b[0] {
        text_less(a[0], b[0])
    } else {
        parts_less(a.drop_first(), b.drop_first())
    }
}

/// The text of path parts joined by `/`.
pub open spec fn join_parts(ps: Seq<Seq<char>>) -> Seq<char>
    decreases ps.len(),
{
    if ps.len() == 0 {
        Seq::empty()
    } else if ps.len() == 1 {
        ps[0]
    } else {
        join_parts(ps.drop_last()) + seq!['/'] + ps.last()
    }
}

pub proof fn lemma_text_less_irreflexive(a: Seq<char>)
    ensures
        !text_less(a, a),
    decreases a.len(),
{
    if a.len() > 0 {
        lemma_text_less_irreflexive(a.drop_first());
    }
}

pub proof fn lemma_text_less_total(a: Seq<char>, b: Seq<char>)
    ensures
        a != b ==> text_less(a, b) || text_less(b, a),
        !(text_less(a, b) && text_less(b, a)),
    decreases a.len(),
{
    if a.len() > 0 && b.len() > 0 && a[0] == b[0] {
        lemma_text_less_total(a.drop_first(), b.drop_first());
        if a != b {
            assert(a =~= seq![a[0]] + a.drop_first());
            assert(b =~= seq![b[0]] + b.drop_first());
        }
    } else if a.len() == 0 && b.len() == 0 {
        assert(a =~= b);
    } else if a.len() > 0 && b.len() > 0 {
        vstd::utf8::char_u32_cast(a[0], a[0] as u32);
        vstd::utf8::char_u32_cast(b[0], b[0] as u32);
    }
}

pub proof fn lemma_text_less_transitive(a: Seq<char>, b: Seq<char>, c: Seq<char>)
    requires
        text_less(a, b),
        text_less(b, c),
    ensures
        text_less(a, c),
    decreases a.len(),
{
    if a.len() > 0 && b.len() > 0 && c.len() > 0 && a[0] == b[0] && b[0] == c[0] {
        lemma_text_less_transitive(a.drop_first(), b.drop_first(), c.drop_first());
    }
}

pub proof fn lemma_parts_less_irreflexive(a: Seq<Seq<char>>)
    ensures
        !parts_less(a, a),
    decreases a.len(),
{
    if a.len() > 0 {
        lemma_parts_less_irreflexive(a.drop_first());
    }
}

pub proof fn lemma_parts_less_total(a: Seq<Seq<char>>, b: Seq<Seq<char>>)
    ensures
        a != b ==> parts_less(a, b) || parts_less(b, a),
        !(parts_less(a, b) && parts_less(b, a)),
    decreases a.len(),
{
    if a.len() > 0 && b.len() > 0 {
        if a[0] == b[0] {
            lemma_parts_less_total(a.drop_first(), b.drop_first());
            if a != b {
                assert(a =~= seq![a[0]] + a.drop_first());
                assert(b =~= seq![b[0]] + b.drop_first());
            }
        } else {
            lemma_text_less_total(a[0], b[0]);
        }
    } else if a.len() == 0 && b.len() == 0 {
        assert(a =~= b);
    }
}

pub proof fn lemma_parts_less_transitive(a: Seq<Seq<char>>, b: Seq<Seq<char>>, c: Seq<Seq<char>>)
    requires
        parts_less(a, b),
        parts_less(b, c),
    ensures
        parts_less(a, c),
    decreases a.len(),
{
    if a.len() > 0 && b.len() > 0 && c.len() > 0 {
        if a[0] == b[0] && b[0] == c[0] {
            lemma_parts_less_transitive(a.drop_first(), b.drop_first(), c.drop_first());
        } else if a[0] == b[0] {
            // a[0] == b[0] < c[0]
        } else if b[0] == c[0] {
            // a[0] < b[0] == c[0]
        } else {
            lemma_text_less_transitive(a[0], b[0], c[0]);
            if a[0] == c[0] {
                lemma_text_less_total(a[0], b[0]);
            }
        }
    }
}

/// Whether two parts' texts are equal, without a `Vec` equality.
fn same_parts(a: &Vec<String>, b: &Vec<String>) -> (r: bool)
    ensures
        r == (parts_view(a@) == parts_view(b@)),
{
    if a.len() != b.len() {
        proof {
            assert(parts_view(a@).len() != parts_view(b@).len());
        }
        return false;
    }
    let mut i: usize = 0;
    while i < a.len()
        invariant
            a@.len() == b@.len(),
            i <= a@.len(),
            forall|j: int| 0 <= j < i ==> #[trigger] a@[j]@ == b@[j]@,
        decreases a.len() - i,
    {
        if !same_text(a[i].as_str(), b[i].as_str()) {
            proof {
                assert(parts_view(a@)[i as int] != parts_view(b@)[i as int]);
            }
            return false;
        }
        i = i + 1;
    }
    proof {
        assert(parts_view(a@) =~= parts_view(b@));
    }
    true
}

/// Compares the parts of two paths as `parts_less` does.
fn less_parts(a: &Vec<String>, b: &Vec<String>) -> (r: bool)
    ensures
        r == parts_less(parts_view(a@), parts_view(b@)),
{
    let mut i: usize = 0;
    let ghost va = parts_view(a@);
    let ghost vb = parts_view(b@);
    proof {
        assert(va.skip(0) =~= va);
        assert(vb.skip(0) =~= vb);
    }
    while i < a.len() && i < b.len() && same_text(a[i].as_str(), b[i].as_str())
        invariant
            va == parts_view(a@),
            vb == parts_view(b@),
            i <= a@.len(),
            i <= b@.len(),
            parts_less(va, vb) == parts_less(va.skip(i as int), vb.skip(i as int)),
        decreases a.len() - i,
    {
        proof {
            assert(va.skip(i as int).drop_first() =~= va.skip(i + 1));
            assert(vb.skip(i as int).drop_first() =~= vb.skip(i + 1));
            assert(va.skip(i as int)[0] == vb.skip(i as int)[0]);
        }
        i = i + 1;
    }
    if i == b.len() {
        false
    } else if i == a.len() {
        true
    } else {
        proof {
            assert(va.skip(i as int)[0] == a@[i as int]@);
            assert(vb.skip(i as int)[0] == b@[i as int]@);
        }
        less_text(a[i].as_str(), b[i].as_str())
    }
}

/// Files held in memory, by path, in the order of their paths.
pub struct FileManager {
    keys: Vec<Vec<String>>,
    data: Vec<Vec<u8>>,
}

/// The files that a list of `(path, contents)` pairs gives: a later pair of
/// a path replaces an earlier one.
pub open spec fn entries_map(es: Seq<(Seq<char>, Seq<u8>)>) -> Map<Seq<Seq<char>>, Seq<u8>>
    decreases es.len(),
{
    if es.len() == 0 {
        Map::empty()
    } else {
        entries_map(es.drop_last()).insert(path_parts(es.last().0), es.last().1)
    }
}

/// Whether paths are in strictly increasing order.
pub open spec fn paths_sorted(ps: Seq<Seq<Seq<char>>>) -> bool {
    forall|i: int, j: int| 0 <= i < j < ps.len() ==> parts_less(#[trigger] ps[i], #[trigger] ps[j])
}

impl FileManager {
    /// The paths of the files, in order.
    pub closed spec fn paths(&self) -> Seq<Seq<Seq<char>>> {
        self.keys@.map_values(|k: Vec<String>| parts_view(k@))
    }

    pub closed spec fn contents(&self) -> Seq<Seq<u8>> {
        self.data@.map_values(|d: Vec<u8>| d@)
    }

    #[verifier::type_invariant]
    closed spec fn inv(&self) -> bool {
        &&& self.keys@.len() == self.data@.len()
        &&& paths_sorted(self.paths())
    }
}

impl View for FileManager {
    type V = Map<Seq<Seq<char>>, Seq<u8>>;

    closed spec fn view(&self) -> Map<Seq<Seq<char>>, Seq<u8>> {
        Map::new(|k: Seq<Seq<char>>| self.paths().contains(k), |k: Seq<Seq<char>>| self.contents()[self.paths().index_of(k)])
    }
}

proof fn lemma_sorted_unique(ps: Seq<Seq<Seq<char>>>, i: int, j: int)
    requires
        paths_sorted(ps),
        0 <= i < ps.len(),
        0 <= j < ps.len(),
        ps[i] == ps[j],
    ensures
        i == j,
{
    if i < j {
        assert(parts_less(ps[i], ps[j]));
        lemma_parts_less_irreflexive(ps[i]);
    } else if j < i {
        assert(parts_less(ps[j], ps[i]));
        lemma_parts_less_irreflexive(ps[i]);
    }
}

impl FileManager {
    /// No files.
    pub fn new() -> (r: FileManager)
        ensures
            r@ == Map::<Seq<Seq<char>>, Seq<u8>>::empty(),
            r.paths().len() == 0,
    {
        let r = FileManager { keys: Vec::new(), data: Vec::new() };
        assert(r@ =~= Map::<Seq<Seq<char>>, Seq<u8>>::empty());
        r
    }

    /// Where a path is, or would go: the first path not before it.
    fn position(&self, key: &Vec<String>) -> (r: usize)
        ensures
            r <= self.paths().len(),
            forall|i: int| 0 <= i < r ==> parts_less(#[trigger] self.paths()[i], parts_view(key@)),
            r < self.paths().len() ==> !parts_less(self.paths()[r as int], parts_view(key@)),
    {
        proof {
            use_type_invariant(self);
        }
        let mut i: usize = 0;
        while i < self.keys.len() && less_parts(&self.keys[i], key)
            invariant
                i <= self.keys@.len(),
                self.paths().len() == self.keys@.len(),
                forall|m: int| 0 <= m < i ==> parts_less(#[trigger] self.paths()[m], parts_view(key@)),
            decreases self.keys.len() - i,
        {
            proof {
                assert(self.paths()[i as int] == parts_view(self.keys@[i as int]@));
            }
            i = i + 1;
        }
        proof {
            if i < self.keys.len() {
                assert(self.paths()[i as int] == parts_view(self.keys@[i as int]@));
            }
        }
        i
    }

    /// Puts a file at a path, replacing any file there.
    pub fn insert(&mut self, key: Vec<String>, value: Vec<u8>)
        ensures
            final(self)@ == old(self)@.insert(parts_view(key@), value@),
    {
        proof {
            use_type_invariant(&*self);
        }
        let ghost k = parts_view(key@);
        let ghost ps = self.paths();
        let ghost cs = self.contents();
        let j = self.position(&key);
        if j < self.keys.len() && same_parts(&self.keys[j], &key) {
            let mut whole = FileManager::new();
            std::mem::swap(&mut whole, self);
            let FileManager { mut keys, mut data } = whole;
            data.set(j, value);
            proof {
                assert(ps[j as int] == k);
            }
            *self = FileManager { keys, data };
            proof {
                assert(self.paths() =~= ps);
                assert(self.contents() =~= cs.update(j as int, value@));
                assert forall|q: Seq<Seq<char>>| #![auto] self@.contains_key(q) == old(self)@.insert(k, value@).contains_key(q) by {}
                assert forall|q: Seq<Seq<char>>| #![auto] self@.contains_key(q) implies self@[q] == old(self)@.insert(k, value@)[q] by {
                    let a = ps.index_of(q);
                    if q == k {
                        lemma_sorted_unique(ps, a, j as int);
                    } else {
                        assert(a != j);
                    }
                }
                assert(self@ =~= old(self)@.insert(k, value@));
            }
        } else {
            let mut whole = FileManager::new();
            std::mem::swap(&mut whole, self);
            let FileManager { mut keys, mut data } = whole;
            keys.insert(j, key);
            data.insert(j, value);
            let ghost nps = keys@.map_values(|kk: Vec<String>| parts_view(kk@));
            proof {
                assert(nps =~= ps.insert(j as int, k));
                if j < ps.len() {
                    lemma_parts_less_total(ps[j as int], k);
                }
                assert forall|a: int, b: int| 0 <= a < b < nps.len() implies parts_less(#[trigger] nps[a], #[trigger] nps[b]) by {
                    if b < j {
                        assert(nps[a] == ps[a] && nps[b] == ps[b]);
                    } else if b == j {
                        assert(nps[a] == ps[a]);
                    } else if a == j {
                        assert(nps[b] == ps[b - 1]);
                        if b - 1 > j {
                            assert(parts_less(ps[j as int], ps[b - 1]));
                            lemma_parts_less_transitive(k, ps[j as int], ps[b - 1]);
                        }
                    } else if a < j {
                        assert(nps[a] == ps[a] && nps[b] == ps[b - 1]);
                    } else {
                        assert(nps[a] == ps[a - 1] && nps[b] == ps[b - 1]);
                    }
                }
            }
            *self = FileManager { keys, data };
            proof {
                assert(self.paths() =~= nps);
                assert(self.contents() =~= cs.insert(j as int, value@));
                assert(!ps.contains(k)) by {
                    if ps.contains(k) {
                        let a = ps.index_of(k);
                        if a < j {
                            lemma_parts_less_irreflexive(k);
                        } else if a == j {
                        } else {
                            assert(parts_less(ps[j as int], ps[a]));
                            lemma_parts_less_total(ps[j as int], k);
                        }
                    }
                }
                assert forall|q: Seq<Seq<char>>| #![auto] self@.contains_key(q) == old(self)@.insert(k, value@).contains_key(q) by {
                    if q == k {
                        assert(nps[j as int] == k);
                    }
                    if nps.contains(q) {
                        let a = nps.index_of(q);
                        if a < j {
                            assert(ps[a] == q);
                        } else if a > j {
                            assert(ps[a - 1] == q);
                        }
                    }
                    if ps.contains(q) {
                        let a = ps.index_of(q);
                        if a < j {
                            assert(nps[a] == q);
                        } else {
                            assert(nps[a + 1] == q);
                        }
                    }
                }
                assert forall|q: Seq<Seq<char>>| #![auto] self@.contains_key(q) implies self@[q] == old(self)@.insert(k, value@)[q] by {
                    let a = nps.index_of(q);
                    if q == k {
                        lemma_sorted_unique(nps, a, j as int);
                    } else {
                        let b = ps.index_of(q);
                        if a < j {
                            assert(ps[a] == q);
                            lemma_sorted_unique(ps, a, b);
                        } else {
                            assert(a != j);
                            assert(ps[a - 1] == q);
                            lemma_sorted_unique(ps, a - 1, b);
                        }
                    }
                }
                assert(self@ =~= old(self)@.insert(k, value@));
            }
        }
    }
}

proof fn lemma_keep_concat(a: Seq<Seq<char>>, b: Seq<Seq<char>>)
    ensures
        keep_parts(a + b) == keep_parts(a) + keep_parts(b),
    decreases b.len(),
{
    if b.len() == 0 {
        assert(a + b =~= a);
        assert(keep_parts(a) + keep_parts(b) =~= keep_parts(a));
    } else {
        assert((a + b).drop_last() =~= a + b.drop_last());
        assert((a + b).last() == b.last());
        lemma_keep_concat(a, b.drop_last());
        let p = b.last();
        if p.len() == 0 || p == seq!['.'] {
        } else {
            assert(keep_parts(a) + keep_parts(b.drop_last()).push(p) =~= (keep_parts(a) + keep_parts(b.drop_last())).push(p));
        }
    }
}

proof fn lemma_resolve_stays_none(a: Seq<Seq<char>>, b: Seq<Seq<char>>)
    requires
        resolve(a) is None,
    ensures
        resolve(a + b) is None,
    decreases b.len(),
{
    if b.len() == 0 {
        assert(a + b =~= a);
    } else {
        assert((a + b).drop_last() =~= a + b.drop_last());
        lemma_resolve_stays_none(a, b.drop_last());
    }
}

/// The parts of a path as an archive names it.
fn key_parts(p: &str) -> (r: Vec<String>)
    ensures
        parts_view(r@) == path_parts(p@),
{
    let pieces = split_on(p, '/');
    let ghost all = split_seq(p@, '/');
    let mut out: Vec<String> = Vec::new();
    let mut i: usize = 0;
    proof {
        reveal_strlit(".");
        assert(all.take(0) =~= Seq::<Seq<char>>::empty());
        assert(parts_view(out@) =~= Seq::<Seq<char>>::empty());
    }
    while i < pieces.len()
        invariant
            pieces@.len() == all.len(),
            forall|j: int| 0 <= j < pieces@.len() ==> #[trigger] pieces@[j]@ == all[j],
            all == split_seq(p@, '/'),
            i <= pieces@.len(),
            "."@ == seq!['.'],
            parts_view(out@) == keep_parts(all.take(i as int)),
        decreases pieces.len() - i,
    {
        let piece = pieces[i];
        let ghost before = parts_view(out@);
        proof {
            assert(all.take(i + 1).drop_last() =~= all.take(i as int));
            assert(all.take(i + 1).last() == piece@);
        }
        if piece.unicode_len() > 0 && !same_text(piece, ".") {
            out.push(piece.to_owned());
            proof {
                assert(parts_view(out@) =~= before.push(piece@));
            }
        }
        i = i + 1;
    }
    proof {
        assert(all.take(i as int) =~= all);
    }
    out
}

/// The parts of a path to look up, `.` and `..` resolved.
pub fn split_path(p: &str) -> (r: Result<Vec<String>, Error>)
    ensures
        match normal_path(p@) {
            Some(v) => r matches Ok(x) && parts_view(x@) == v,
            None => r matches Err(Error::InvalidPath(t)) && t@ == p@,
        },
{
    let pieces = split_on(p, '/');
    let ghost all = split_seq(p@, '/');
    let mut out: Vec<String> = Vec::new();
    let mut i: usize = 0;
    proof {
        reveal_strlit(".");
        reveal_strlit("..");
        assert(all.take(0) =~= Seq::<Seq<char>>::empty());
        assert(parts_view(out@) =~= Seq::<Seq<char>>::empty());
    }
    while i < pieces.len()
        invariant
            pieces@.len() == all.len(),
            forall|j: int| 0 <= j < pieces@.len() ==> #[trigger] pieces@[j]@ == all[j],
            all == split_seq(p@, '/'),
            i <= pieces@.len(),
            "."@ == seq!['.'],
            ".."@ == seq!['.', '.'],
            resolve(keep_parts(all.take(i as int))) == Some(parts_view(out@)),
        decreases pieces.len() - i,
    {
        let piece = pieces[i];
        let ghost before = parts_view(out@);
        let ghost kp = keep_parts(all.take(i as int));
        proof {
            assert(all.take(i + 1).drop_last() =~= all.take(i as int));
            assert(all.take(i + 1).last() == piece@);
        }
        if piece.unicode_len() > 0 && !same_text(piece, ".") {
            proof {
                assert(keep_parts(all.take(i + 1)) == kp.push(piece@));
                assert(kp.push(piece@).drop_last() =~= kp);
            }
            if same_text(piece, "..") {
                if out.len() == 0 {
                    proof {
                        assert(resolve(keep_parts(all.take(i + 1))) is None);
                        lemma_keep_concat(all.take(i + 1), all.skip(i + 1));
                        assert(all.take(i + 1) + all.skip(i + 1) =~= all);
                        lemma_resolve_stays_none(keep_parts(all.take(i + 1)), keep_parts(all.skip(i + 1)));
                    }
                    return Err(Error::InvalidPath(p.to_owned()));
                }
                out.pop();
                proof {
                    assert(parts_view(out@) =~= before.drop_last());
                }
            } else {
                out.push(piece.to_owned());
                proof {
                    assert(parts_view(out@) =~= before.push(piece@));
                }
            }
        }
        i = i + 1;
    }
    proof {
        assert(all.take(i as int) =~= all);
    }
    Ok(out)
}

/// The entries of a gzipped tar archive, in archive order: the bytes of
/// each entry's path as its headers give them, undecoded, and the entry's
/// bytes; `None` for bytes that are not such an archive.
pub uninterp spec fn archive_files(bytes: Seq<u8>) -> Option<Seq<(Seq<u8>, Seq<u8>)>>;

pub open spec fn raw_pairs_view(v: Seq<(Vec<u8>, Vec<u8>)>) -> Seq<(Seq<u8>, Seq<u8>)> {
    v.map_values(|e: (Vec<u8>, Vec<u8>)| (e.0@, e.1@))
}

/// Whether every path of the entries is UTF-8 text.
pub open spec fn paths_are_text(fs: Seq<(Seq<u8>, Seq<u8>)>) -> bool {
    forall|i: int| 0 <= i < fs.len() ==> vstd::utf8::valid_utf8(#[trigger] fs[i].0)
}

/// The entries with their paths decoded from UTF-8.
pub open spec fn decoded_entries(fs: Seq<(Seq<u8>, Seq<u8>)>) -> Seq<(Seq<char>, Seq<u8>)> {
    fs.map_values(|e: (Seq<u8>, Seq<u8>)| (vstd::utf8::decode_utf8(e.0), e.1))
}

pub open spec fn pairs_view(v: Seq<(String, Vec<u8>)>) -> Seq<(Seq<char>, Seq<u8>)> {
    v.map_values(|e: (String, Vec<u8>)| (e.0@, e.1@))
}

/// Unpacks a gzipped tar archive: reads the bytes through
/// `flate2::read::GzDecoder` into `tar::Archive::entries`, and gives each
/// entry's `path_bytes` (the path its headers hold, undecoded, the same on
/// every platform) with the bytes `read_to_end` gives for it, in archive
/// order; `None` where any of these fails. The contract names the result
/// and says no more of it.
#[verifier::external_body]
fn unpack_archive(bytes: &[u8]) -> (r: Option<Vec<(Vec<u8>, Vec<u8>)>>)
    ensures
        match archive_files(bytes@) {
            Some(fs) => r matches Some(v) && raw_pairs_view(v@) == fs,
            None => r is None,
        },
{
    let mut archive = tar::Archive::new(flate2::read::GzDecoder::new(bytes));
    let mut files = Vec::new();
    for entry in archive.entries().ok()? {
        let mut entry = entry.ok()?;
        let path = entry.path_bytes().into_owned();
        let mut data = Vec::new();
        std::io::Read::read_to_end(&mut entry, &mut data).ok()?;
        files.push((path, data));
    }
    Some(files)
}

/// The entries with their paths decoded as UTF-8 text; `None` where a path
/// is not text.
fn decode_paths(entries: Vec<(Vec<u8>, Vec<u8>)>) -> (r: Option<Vec<(String, Vec<u8>)>>)
    ensures
        paths_are_text(raw_pairs_view(entries@)) <==> r is Some,
        r matches Some(v) ==> pairs_view(v@) == decoded_entries(raw_pairs_view(entries@)),
{
    let ghost all = raw_pairs_view(entries@);
    let mut out: Vec<(String, Vec<u8>)> = Vec::new();
    let mut k: usize = 0;
    while k < entries.len()
        invariant
            k <= entries@.len(),
            all == raw_pairs_view(entries@),
            forall|i: int| 0 <= i < k ==> vstd::utf8::valid_utf8(#[trigger] all[i].0),
            pairs_view(out@) == decoded_entries(all).take(k as int),
        decreases entries.len() - k,
    {
        let path = entries[k].0.clone();
        let data = entries[k].1.clone();
        proof {
            assert(path@ == entries@[k as int].0@);
            assert(data@ == entries@[k as int].1@);
            assert(all[k as int] == (path@, data@));
            assert(decoded_entries(all)[k as int] == (vstd::utf8::decode_utf8(path@), data@));
        }
        match text_from_utf8(path) {
            Some(t) => {
                let ghost before = out@;
                out.push((t, data));
                proof {
                    assert(out@ == before.push((t, data)));
                    assert(pairs_view(before).len() == k);
                    assert forall|i: int| 0 <= i < k + 1 implies #[trigger] pairs_view(out@)[i] == decoded_entries(all).take(k + 1)[i] by {
                        if i < k {
                            assert(out@[i] == before[i]);
                            assert(pairs_view(before)[i] == decoded_entries(all).take(k as int)[i]);
                        }
                    }
                    assert(pairs_view(out@) =~= decoded_entries(all).take(k + 1));
                }
            },
            None => {
                proof {
                    assert(!vstd::utf8::valid_utf8(all[k as int].0));
                }
                return None;
            },
        }
        k = k + 1;
    }
    proof {
        assert(decoded_entries(all).take(k as int) =~= decoded_entries(all));
    }
    Some(out)
}


/// Decodes UTF-8 text: calls `String::from_utf8`, which std documents as
/// failing exactly on bytes that are not valid UTF-8 and otherwise giving
/// the text they encode.
#[verifier::external_body]
fn text_from_utf8(bytes: Vec<u8>) -> (r: Option<String>)
    ensures
        r is Some <==> vstd::utf8::valid_utf8(bytes@),
        r matches Some(t) ==> t@ == vstd::utf8::decode_utf8(bytes@),
{
    String::from_utf8(bytes).ok()
}

/// Whether path `p` lies under directory `d`, and if so the name of the
/// entry of `d` it lies in, and whether that entry is the file itself.
pub open spec fn child_of(p: Seq<Seq<char>>, d: Seq<Seq<char>>) -> Option<(Seq<char>, bool)> {
    if p.len() > d.len() && p.take(d.len() as int) == d {
        Some((p[d.len() as int], p.len() == d.len() + 1))
    } else {
        None
    }
}

/// The entries of directory `d` among the paths, in path order; an entry
/// that follows one of the same name is left out.
pub open spec fn dir_children(ps: Seq<Seq<Seq<char>>>, d: Seq<Seq<char>>) -> Seq<(Seq<char>, bool)>
    decreases ps.len(),
{
    if ps.len() == 0 {
        Seq::empty()
    } else {
        let rest = dir_children(ps.drop_last(), d);
        match child_of(ps.last(), d) {
            None => rest,
            Some(c) => if rest.len() > 0 && rest.last().0 == c.0 {
                rest
            } else {
                rest.push(c)
            },
        }
    }
}

/// Of two paths under `d` in order, the first's entry in `d` is the
/// second's or sorts before it.
proof fn lemma_child_order(p: Seq<Seq<char>>, q: Seq<Seq<char>>, d: Seq<Seq<char>>)
    requires
        parts_less(p, q),
        child_of(p, d) is Some,
        child_of(q, d) is Some,
    ensures
        p[d.len() as int] == q[d.len() as int] || text_less(p[d.len() as int], q[d.len() as int]),
    decreases d.len(),
{
    if d.len() > 0 {
        assert(p[0] == d[0] && q[0] == d[0]);
        assert(p.drop_first().take(d.drop_first().len() as int) =~= d.drop_first());
        assert(q.drop_first().take(d.drop_first().len() as int) =~= d.drop_first());
        lemma_child_order(p.drop_first(), q.drop_first(), d.drop_first());
    }
}

/// Over paths in order, the entries of a directory come in strictly
/// increasing order of their names, and each is the entry of one of the
/// paths.
proof fn lemma_dir_children_sorted(ps: Seq<Seq<Seq<char>>>, d: Seq<Seq<char>>)
    requires
        paths_sorted(ps),
    ensures
        forall|i: int, j: int| 0 <= i < j < dir_children(ps, d).len() ==> text_less(
            #[trigger] dir_children(ps, d)[i].0,
            #[trigger] dir_children(ps, d)[j].0,
        ),
        forall|i: int| 0 <= i < dir_children(ps, d).len() ==> exists|k: int| 0 <= k < ps.len() && #[trigger] child_of(ps[k], d)
            == Some(#[trigger] dir_children(ps, d)[i]),
    decreases ps.len(),
{
    if ps.len() > 0 {
        let init = ps.drop_last();
        assert(paths_sorted(init)) by {
            assert forall|i: int, j: int| 0 <= i < j < init.len() implies parts_less(#[trigger] init[i], #[trigger] init[j]) by {
                assert(init[i] == ps[i] && init[j] == ps[j]);
            }
        }
        lemma_dir_children_sorted(init, d);
        let rest = dir_children(init, d);
        let cs = dir_children(ps, d);
        assert forall|i: int| #![trigger rest[i]] 0 <= i < rest.len() implies exists|k: int| 0 <= k < ps.len() && #[trigger] child_of(ps[k], d)
            == Some(rest[i]) by {
            let k = choose|k: int| 0 <= k < init.len() && #[trigger] child_of(init[k], d) == Some(rest[i]);
            assert(init[k] == ps[k]);
        }
        match child_of(ps.last(), d) {
            None => {},
            Some(c) => {
                if !(rest.len() > 0 && rest.last().0 == c.0) {
                    assert(cs == rest.push(c));
                    if rest.len() > 0 {
                        let n = rest.len() - 1;
                        let k = choose|k: int| 0 <= k < init.len() && #[trigger] child_of(init[k], d) == Some(rest[n]);
                        assert(parts_less(ps[k], ps[ps.len() - 1]));
                        assert(init[k] == ps[k]);
                        lemma_child_order(ps[k], ps.last(), d);
                        assert(text_less(rest[n].0, c.0));
                        assert forall|i: int| 0 <= i < n implies text_less(#[trigger] rest[i].0, c.0) by {
                            lemma_text_less_transitive(rest[i].0, rest[n].0, c.0);
                        }
                    }
                    assert(child_of(ps[ps.len() - 1], d) == Some(cs[cs.len() - 1]));
                }
            },
        }
    }
}

/// The entries of a directory have pairwise distinct names.
pub proof fn lemma_dir_names_distinct(ps: Seq<Seq<Seq<char>>>, d: Seq<Seq<char>>)
    requires
        paths_sorted(ps),
    ensures
        forall|i: int, j: int| 0 <= i < j < dir_children(ps, d).len() ==> #[trigger] dir_children(ps, d)[i].0
            != #[trigger] dir_children(ps, d)[j].0,
{
    lemma_dir_children_sorted(ps, d);
    assert forall|i: int, j: int| 0 <= i < j < dir_children(ps, d).len() implies #[trigger] dir_children(ps, d)[i].0
        != #[trigger] dir_children(ps, d)[j].0 by {
        lemma_text_less_irreflexive(dir_children(ps, d)[i].0);
    }
}

/// Whether a directory entry is the child `c` of directory `d`.
pub open spec fn entry_of(e: DirEntry, c: (Seq<char>, bool), d: Seq<Seq<char>>) -> bool {
    &&& e.name@ == c.0
    &&& e.file_type == if c.1 { DirEntryType::File } else { DirEntryType::Directory }
    &&& e.full_path@ == join_parts(d.push(c.0))
}

/// The text of a directory's parts and one more part, joined by `/`.
fn join_path(parts: &Vec<String>, last: &str) -> (r: String)
    ensures
        r@ == join_parts(parts_view(parts@).push(last@)),
{
    let mut r = String::new();
    let mut i: usize = 0;
    proof {
        reveal_strlit("/");
        assert(parts_view(parts@).take(0) =~= Seq::<Seq<char>>::empty());
    }
    while i < parts.len()
        invariant
            i <= parts@.len(),
            "/"@ == seq!['/'],
            r@ == join_parts(parts_view(parts@).take(i as int)),
        decreases parts.len() - i,
    {
        if i > 0 {
            append(&mut r, "/");
        }
        append(&mut r, parts[i].as_str());
        proof {
            let t = parts_view(parts@).take(i + 1);
            assert(t.drop_last() =~= parts_view(parts@).take(i as int));
            if i == 0 {
                assert(r@ =~= t[0]);
            }
        }
        i = i + 1;
    }
    if i > 0 {
        append(&mut r, "/");
    }
    append(&mut r, last);
    proof {
        let t = parts_view(parts@).push(last@);
        assert(parts_view(parts@).take(i as int) =~= parts_view(parts@));
        assert(t.drop_last() =~= parts_view(parts@));
        if i == 0 {
            assert(r@ =~= t[0]);
        }
    }
    r
}

/// Whether the parts of `p` start with all of `d`, and go on past it.
fn under_dir(p: &Vec<String>, d: &Vec<String>) -> (r: bool)
    ensures
        r == (p@.len() > d@.len() && parts_view(p@).take(d@.len() as int) == parts_view(d@)),
{
    if p.len() <= d.len() {
        return false;
    }
    let mut i: usize = 0;
    while i < d.len()
        invariant
            i <= d@.len(),
            d@.len() < p@.len(),
            forall|j: int| 0 <= j < i ==> #[trigger] p@[j]@ == d@[j]@,
        decreases d.len() - i,
    {
        if !same_text(p[i].as_str(), d[i].as_str()) {
            proof {
                assert(parts_view(p@).take(d@.len() as int)[i as int] != parts_view(d@)[i as int]);
            }
            return false;
        }
        i = i + 1;
    }
    proof {
        assert(parts_view(p@).take(d@.len() as int) =~= parts_view(d@));
    }
    true
}

impl FileManager {
    /// The files of a list of `(path, contents)` pairs; a later pair of a
    /// path replaces an earlier one.
    pub fn from_entries(entries: Vec<(String, Vec<u8>)>) -> (r: FileManager)
        ensures
            r@ == entries_map(pairs_view(entries@)),
    {
        let mut m = FileManager::new();
        let ghost es = pairs_view(entries@);
        let ghost orig = entries@;
        let mut entries = entries;
        let ghost mut k: int = 0;
        proof {
            assert(es.take(0) =~= Seq::<(Seq<char>, Seq<u8>)>::empty());
            assert(m@ =~= entries_map(es.take(0)));
            assert(entries@ =~= orig.skip(0));
        }
        while entries.len() > 0
            invariant
                0 <= k <= orig.len(),
                es == pairs_view(orig),
                entries@ == orig.skip(k),
                m@ == entries_map(es.take(k)),
            decreases entries.len(),
        {
            let (path, data) = entries.remove(0);
            let key = key_parts(path.as_str());
            proof {
                assert(es.take(k + 1).drop_last() =~= es.take(k));
                assert(orig[k] == (path, data));
                assert(es[k] == (path@, data@));
            }
            m.insert(key, data);
            proof {
                k = k + 1;
                assert(entries@ =~= orig.skip(k));
            }
        }
        proof {
            assert(es.take(k) =~= es);
        }
        m
    }
}

impl FileManager {
    /// The files of a gzipped tar archive; a later entry of a path replaces
    /// an earlier one. An archive with a path that is not UTF-8 text is
    /// refused.
    pub fn from_archive_bytes(bytes: &[u8]) -> (r: Result<FileManager, Error>)
        ensures
            match archive_files(bytes@) {
                Some(fs) => if paths_are_text(fs) {
                    r matches Ok(m) && m@ == entries_map(decoded_entries(fs))
                } else {
                    r == Err::<FileManager, Error>(Error::BadArchive)
                },
                None => r == Err::<FileManager, Error>(Error::BadArchive),
            },
    {
        match unpack_archive(bytes) {
            Some(raw) => match decode_paths(raw) {
                Some(files) => Ok(FileManager::from_entries(files)),
                None => Err(Error::BadArchive),
            },
            None => Err(Error::BadArchive),
        }
    }

    /// The place of the file at a path, if there is one.
    fn find(&self, key: &Vec<String>) -> (r: Option<usize>)
        ensures
            match r {
                Some(j) => j < self.paths().len() && self.paths()[j as int] == parts_view(key@)
                    && self@.contains_key(parts_view(key@)) && self@[parts_view(key@)] == self.contents()[j as int],
                None => !self@.contains_key(parts_view(key@)),
            },
    {
        proof {
            use_type_invariant(self);
        }
        let ghost k = parts_view(key@);
        let ghost ps = self.paths();
        let j = self.position(key);
        if j < self.keys.len() && same_parts(&self.keys[j], key) {
            proof {
                assert(ps[j as int] == k);
                assert(ps.contains(k));
                lemma_sorted_unique(ps, ps.index_of(k), j as int);
            }
            Some(j)
        } else {
            proof {
                if ps.contains(k) {
                    let a = ps.index_of(k);
                    if a < j {
                        lemma_parts_less_irreflexive(k);
                    } else if a > j {
                        assert(parts_less(ps[j as int], ps[a]));
                    } else {
                        assert(ps[j as int] == parts_view(self.keys@[j as int]@));
                    }
                }
            }
            None
        }
    }

    /// The bytes of the file at a path.
    pub fn read(&self, path: &str) -> (r: Result<Vec<u8>, Error>)
        ensures
            match normal_path(path@) {
                None => r matches Err(Error::InvalidPath(t)) && t@ == path@,
                Some(k) => if self@.contains_key(k) {
                    r matches Ok(d) && d@ == self@[k]
                } else {
                    r matches Err(Error::FileNotFound(t)) && t@ == path@
                },
            },
    {
        let key = split_path(path)?;
        match self.find(&key) {
            Some(j) => {
                proof {
                    use_type_invariant(self);
                    assert(self.contents()[j as int] == self.data@[j as int]@);
                }
                Ok(self.data[j].clone())
            },
            None => Err(Error::FileNotFound(path.to_owned())),
        }
    }

    /// The text of the file at a path, which must be UTF-8.
    pub fn read_to_string(&self, path: &str) -> (r: Result<String, Error>)
        ensures
            match normal_path(path@) {
                None => r matches Err(Error::InvalidPath(t)) && t@ == path@,
                Some(k) => if !self@.contains_key(k) {
                    r matches Err(Error::FileNotFound(t)) && t@ == path@
                } else if vstd::utf8::valid_utf8(self@[k]) {
                    r matches Ok(s) && s@ == vstd::utf8::decode_utf8(self@[k])
                } else {
                    r matches Err(Error::NotUtf8(t)) && t@ == path@
                },
            },
    {
        let data = self.read(path)?;
        match text_from_utf8(data) {
            Some(s) => Ok(s),
            None => Err(Error::NotUtf8(path.to_owned())),
        }
    }

    /// The entries of a directory: for each file under it, in path order,
    /// the entry of the directory it lies in, a file where it lies directly
    /// in the directory; an entry of the same name as the one before it is
    /// left out.
    pub fn read_dir(&self, dir_path: &str) -> (r: Result<Vec<DirEntry>, Error>)
        requires
            normal_path(dir_path@) matches Some(d) ==> !self@.contains_key(d),
        ensures
            match normal_path(dir_path@) {
                None => r matches Err(Error::InvalidPath(t)) && t@ == dir_path@,
                Some(d) => r matches Ok(v) && {
                    let cs = dir_children(self.paths(), d);
                    &&& v@.len() == cs.len()
                    &&& forall|i: int| 0 <= i < cs.len() ==> #[trigger] entry_of(v@[i], cs[i], d)
                    &&& forall|i: int, j: int| 0 <= i < j < v@.len() ==> #[trigger] v@[i].name@ != #[trigger] v@[j].name@
                },
            },
    {
        proof {
            use_type_invariant(self);
        }
        let d = split_path(dir_path)?;
        let ghost dv = parts_view(d@);
        let ghost ps = self.paths();
        let mut out: Vec<DirEntry> = Vec::new();
        let mut i: usize = 0;
        proof {
            assert(ps.take(0) =~= Seq::<Seq<Seq<char>>>::empty());
        }
        while i < self.keys.len()
            invariant
                i <= self.keys@.len(),
                ps == self.paths(),
                ps.len() == self.keys@.len(),
                dv == parts_view(d@),
                !ps.contains(dv),
                out@.len() == dir_children(ps.take(i as int), dv).len(),
                forall|m: int| 0 <= m < out@.len() ==> #[trigger] entry_of(out@[m], dir_children(ps.take(i as int), dv)[m], dv),
            decreases self.keys.len() - i,
        {
            let key = &self.keys[i];
            let ghost before = dir_children(ps.take(i as int), dv);
            proof {
                assert(ps.take(i + 1).drop_last() =~= ps.take(i as int));
                assert(ps.take(i + 1).last() == ps[i as int]);
                assert(ps[i as int] == parts_view(key@));
            }
            if under_dir(key, &d) {
                let name = key[d.len()].clone();
                let is_file = key.len() == d.len() + 1;
                let ghost c = (name@, is_file);
                proof {
                    assert(child_of(ps[i as int], dv) == Some(c));
                }
                proof {
                    if out@.len() > 0 {
                        assert(entry_of(out@[out@.len() - 1], before[before.len() - 1], dv));
                    }
                }
                let same = out.len() > 0 && same_text(out[out.len() - 1].name.as_str(), name.as_str());
                if !same {
                    let full_path = join_path(&d, name.as_str());
                    let file_type = if is_file { DirEntryType::File } else { DirEntryType::Directory };
                    out.push(DirEntry { full_path, name, file_type });
                    proof {
                        assert(dir_children(ps.take(i + 1), dv) == before.push(c));
                        assert(entry_of(out@[out@.len() - 1], c, dv));
                    }
                } else {
                    proof {
                        assert(entry_of(out@[out@.len() - 1], before.last(), dv));
                    }
                }
            } else {
                proof {
                    if ps[i as int].len() == dv.len() && ps[i as int].take(dv.len() as int) == dv {
                        assert(ps[i as int] =~= dv);
                    }
                }
            }
            i = i + 1;
        }
        proof {
            assert(ps.take(i as int) =~= ps);
            lemma_dir_names_distinct(ps, dv);
            let cs = dir_children(ps, dv);
            assert forall|a: int, b: int| 0 <= a < b < out@.len() implies #[trigger] out@[a].name@ != #[trigger] out@[b].name@ by {
                assert(entry_of(out@[a], cs[a], dv));
                assert(entry_of(out@[b], cs[b], dv));
            }
        }
        Ok(out)
    }
}

/// Of the entries given for a path, the last one is the file found there.
pub proof fn later_entry_wins(es: Seq<(Seq<char>, Seq<u8>)>, p: Seq<char>, d: Seq<u8>)
    ensures
        entries_map(es.push((p, d))).contains_key(path_parts(p)),
        entries_map(es.push((p, d)))[path_parts(p)] == d,
{
    assert(es.push((p, d)).drop_last() =~= es);
}

/// The paths a manager made from entries holds are exactly the paths of
/// those entries.
pub proof fn entries_map_paths(es: Seq<(Seq<char>, Seq<u8>)>, k: Seq<Seq<char>>)
    ensures
        entries_map(es).contains_key(k) <==> exists|i: int| 0 <= i < es.len() && path_parts(#[trigger] es[i].0) == k,
    decreases es.len(),
{
    if es.len() > 0 {
        let init = es.drop_last();
        entries_map_paths(init, k);
        if exists|i: int| 0 <= i < init.len() && path_parts(#[trigger] init[i].0) == k {
            let i = choose|i: int| 0 <= i < init.len() && path_parts(#[trigger] init[i].0) == k;
            assert(es[i] == init[i]);
        }
        if exists|i: int| 0 <= i < es.len() && path_parts(#[trigger] es[i].0) == k {
            let i = choose|i: int| 0 <= i < es.len() && path_parts(#[trigger] es[i].0) == k;
            if i < es.len() - 1 {
                assert(es[i] == init[i]);
            }
        }
    }
}

/// Reading back an archive: a manager made from a gzipped tar archive whose
/// paths are text finds, at the path of an entry that no other entry
/// shares, that entry's bytes, and finds nothing at a path that no entry
/// has.
pub proof fn archive_read_round_trip(bytes: Seq<u8>, k: Seq<Seq<char>>)
    requires
        archive_files(bytes) matches Some(fs) && paths_are_text(fs),
    ensures
        ({
            let es = decoded_entries(archive_files(bytes).unwrap());
            &&& (forall|i: int| 0 <= i < es.len() ==> path_parts(#[trigger] es[i].0) != k) ==> !entries_map(es).contains_key(k)
            &&& forall|i: int|
                0 <= i < es.len() && path_parts(es[i].0) == k && (forall|j: int| 0 <= j < es.len() && j != i
                    ==> path_parts(#[trigger] es[j].0) != k) ==> entries_map(es).contains_key(k) && entries_map(es)[k]
                    == (#[trigger] es[i]).1
        }),
{
    let es = decoded_entries(archive_files(bytes).unwrap());
    entries_map_paths(es, k);
    assert forall|i: int|
        0 <= i < es.len() && path_parts(es[i].0) == k && (forall|j: int| 0 <= j < es.len() && j != i
            ==> path_parts(#[trigger] es[j].0) != k) implies entries_map(es).contains_key(k) && entries_map(es)[k]
            == (#[trigger] es[i]).1 by {
        unique_entry_is_read(es, i);
    }
}

/// A file that an archive holds at a path no other entry shares is the file
/// found at that path: reading a manager made from the archive gives it.
pub proof fn unique_entry_is_read(es: Seq<(Seq<char>, Seq<u8>)>, i: int)
    requires
        0 <= i < es.len(),
        forall|j: int| 0 <= j < es.len() && j != i ==> path_parts(#[trigger] es[j].0) != path_parts(es[i].0),
    ensures
        entries_map(es).contains_key(path_parts(es[i].0)),
        entries_map(es)[path_parts(es[i].0)] == es[i].1,
    decreases es.len(),
{
    let k = path_parts(es[i].0);
    if i == es.len() - 1 {
        later_entry_wins(es.drop_last(), es[i].0, es[i].1);
        assert(es.drop_last().push((es[i].0, es[i].1)) =~= es);
    } else {
        let rest = es.drop_last();
        assert forall|j: int| 0 <= j < rest.len() && j != i implies path_parts(#[trigger] rest[j].0) != path_parts(rest[i].0) by {
            assert(rest[j] == es[j]);
        }
        unique_entry_is_read(rest, i);
        assert(path_parts(es.last().0) != k);
    }
}

} // verus!
