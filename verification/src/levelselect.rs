//! The level chooser: the entries of a directory, one of them selected,
//! scrolled so that the selection is on screen.
use vstd::prelude::*;

use crate::filemanager::{lemma_text_less_total, lemma_text_less_transitive, DirEntry, DirEntryType};
use crate::inputmanager::InputSnapshot;
use crate::scene::SceneResult;

verus! {

/// How many entries below the first shown the selection may be.
pub const VISIBLE_ROWS: i32 = 10;

/// Whether text `a` sorts strictly before text `b`, character by character.
pub open spec fn text_less(a: Seq<char>, b: Seq<char>) -> bool
    decreases a.len(),
{
    if b.len() == 0 {
        false
    } else if a.len() == 0 {
        true
    } else if a[0] != b[0] {
        (a[0] as u32) < (b[0] as u32)
    } else {
        text_less(a.drop_first(), b.drop_first())
    }
}

/// Compares two texts as `str`'s order does.
pub fn less_text(a: &str, b: &str) -> (r: bool)
    ensures
        r == text_less(a@, b@),
{
    let ca = crate::text::chars_of(a);
    let cb = crate::text::chars_of(b);
    let mut i: usize = 0;
    proof {
        assert(a@.skip(0) =~= a@);
        assert(b@.skip(0) =~= b@);
    }
    while i < ca.len() && i < cb.len() && ca[i] == cb[i]
        invariant
            i <= ca@.len(),
            i <= cb@.len(),
            ca@ == a@,
            cb@ == b@,
            text_less(a@, b@) == text_less(a@.skip(i as int), b@.skip(i as int)),
        decreases ca.len() - i,
    {
        proof {
            assert(a@.skip(i as int).drop_first() =~= a@.skip(i + 1));
            assert(b@.skip(i as int).drop_first() =~= b@.skip(i + 1));
        }
        i = i + 1;
    }
    if i == cb.len() {
        false
    } else if i == ca.len() {
        true
    } else {
        (ca[i] as u32) < (cb[i] as u32)
    }
}

/// The place in `t`, from `k` on, before the first entry whose name sorts
/// after `name`.
pub open spec fn first_after(t: Seq<DirEntry>, name: Seq<char>, k: int) -> int
    decreases t.len() - k,
{
    if k >= t.len() || text_less(name, t[k].name@) {
        k
    } else {
        first_after(t, name, k + 1)
    }
}

/// The entries sorted by name; entries of equal names keep their order.
pub open spec fn by_name(s: Seq<DirEntry>) -> Seq<DirEntry>
    decreases s.len(),
{
    if s.len() == 0 {
        Seq::empty()
    } else {
        let t = by_name(s.drop_last());
        t.insert(first_after(t, s.last().name@, 0), s.last())
    }
}

proof fn lemma_first_after(t: Seq<DirEntry>, name: Seq<char>, k: int)
    requires
        0 <= k <= t.len(),
    ensures
        k <= first_after(t, name, k) <= t.len(),
        forall|j: int| k <= j < first_after(t, name, k) ==> !text_less(name, #[trigger] t[j].name@),
        first_after(t, name, k) < t.len() ==> text_less(name, t[first_after(t, name, k)].name@),
    decreases t.len() - k,
{
    if k < t.len() && !text_less(name, t[k].name@) {
        lemma_first_after(t, name, k + 1);
    }
}

proof fn lemma_by_name_len(s: Seq<DirEntry>)
    ensures
        by_name(s).len() == s.len(),
    decreases s.len(),
{
    if s.len() > 0 {
        lemma_by_name_len(s.drop_last());
        lemma_first_after(by_name(s.drop_last()), s.last().name@, 0);
    }
}

/// Whether entries are in order of their names: no name sorts before one
/// that comes earlier.
pub open spec fn names_sorted(t: Seq<DirEntry>) -> bool {
    forall|i: int, j: int| 0 <= i < j < t.len() ==> !text_less(#[trigger] t[j].name@, #[trigger] t[i].name@)
}

/// Sorting by name gives the same entries, in order of their names.
pub proof fn by_name_sorts(s: Seq<DirEntry>)
    ensures
        names_sorted(by_name(s)),
        by_name(s).to_multiset() == s.to_multiset(),
    decreases s.len(),
{
    broadcast use vstd::seq_lib::to_multiset_insert;
    broadcast use vstd::seq_lib::group_to_multiset_ensures;

    if s.len() == 0 {
        assert(by_name(s).to_multiset() =~= s.to_multiset());
    } else {
        let init = s.drop_last();
        by_name_sorts(init);
        lemma_by_name_len(init);
        let t = by_name(init);
        let x = s.last();
        let p = first_after(t, x.name@, 0);
        lemma_first_after(t, x.name@, 0);
        let u = t.insert(p, x);
        assert(u == by_name(s));
        assert(s == init.push(x));
        assert(u.to_multiset() == t.to_multiset().insert(x));
        assert forall|i: int, j: int| 0 <= i < j < u.len() implies !text_less(#[trigger] u[j].name@, #[trigger] u[i].name@) by {
            if j < p {
                assert(u[i] == t[i] && u[j] == t[j]);
            } else if j == p {
                assert(u[i] == t[i] && u[j] == x);
                // t[i] comes before the place of x, so x does not sort before it.
                lemma_text_less_total(x.name@, t[i].name@);
                assert(!text_less(x.name@, t[i].name@));
            } else if i == p {
                assert(u[i] == x && u[j] == t[j - 1]);
                // t[p] sorts after x, and t[j - 1] is not before t[p].
                if text_less(t[j - 1].name@, x.name@) {
                    assert(p < t.len());
                    assert(text_less(x.name@, t[p].name@));
                    if j - 1 > p {
                        assert(!text_less(t[j - 1].name@, t[p].name@));
                        lemma_text_less_transitive(t[j - 1].name@, x.name@, t[p].name@);
                    } else {
                        lemma_text_less_total(x.name@, t[p].name@);
                    }
                }
            } else if i < p {
                assert(u[i] == t[i] && u[j] == t[j - 1]);
            } else {
                assert(u[i] == t[i - 1] && u[j] == t[j - 1]);
            }
        }
    }
}

/// Sorts entries by name, keeping the order of equal names.
pub fn sort_by_name(entries: Vec<DirEntry>) -> (r: Vec<DirEntry>)
    ensures
        r@ == by_name(entries@),
{
    let ghost orig = entries@;
    let mut entries = entries;
    let mut out: Vec<DirEntry> = Vec::new();
    let ghost mut k: int = 0;
    proof {
        assert(orig.take(0) =~= Seq::<DirEntry>::empty());
        assert(entries@ =~= orig.skip(0));
    }
    while entries.len() > 0
        invariant
            0 <= k <= orig.len(),
            entries@ == orig.skip(k),
            out@ == by_name(orig.take(k)),
        decreases entries.len(),
    {
        let e = entries.remove(0);
        proof {
            assert(orig.take(k + 1).drop_last() =~= orig.take(k));
            assert(e == orig[k]);
            lemma_first_after(out@, e.name@, 0);
        }
        let mut j: usize = 0;
        while j < out.len() && !less_text(e.name.as_str(), out[j].name.as_str())
            invariant
                j <= out@.len(),
                first_after(out@, e.name@, 0) >= j,
                forall|m: int| j <= m < first_after(out@, e.name@, 0) ==> !text_less(e.name@, #[trigger] out@[m].name@),
                first_after(out@, e.name@, 0) < out@.len() ==> text_less(e.name@, out@[first_after(out@, e.name@, 0)].name@),
                first_after(out@, e.name@, 0) <= out@.len(),
            decreases out.len() - j,
        {
            j = j + 1;
        }
        out.insert(j, e);
        proof {
            k = k + 1;
            assert(entries@ =~= orig.skip(k));
        }
    }
    proof {
        assert(orig.take(k) =~= orig);
    }
    out
}

/// Whether the chooser `s1` and the result `r` are what a frame of chooser
/// `s0` with these inputs gives.
pub open spec fn select_update_fits(s0: LevelSelect, inputs: InputSnapshot, s1: LevelSelect, r: SceneResult) -> bool {
    &&& s1.wf()
    &&& s1.files == s0.files
    &&& s1.directory == s0.directory
    &&& inputs.cancel_clicked ==> r is Pop && s1 == s0
    &&& !inputs.cancel_clicked && (inputs.menu_up_clicked || inputs.menu_down_clicked || inputs.ok_clicked)
        ==> s1.current == s0.moved(inputs)
    &&& (!inputs.cancel_clicked && inputs.ok_clicked) ==> ({
        let e = s0.files@[s1.current as int];
        &&& s1.start == s0.start
        &&& e.file_type is Directory ==> (r matches SceneResult::PushLevelSelect { path } && path@ == e.full_path@)
        &&& e.file_type is File ==> (r matches SceneResult::PushLevel { path } && path@ == e.full_path@)
    })
    &&& (!inputs.cancel_clicked && !inputs.ok_clicked) ==> ({
        let c = s1.current;
        let st = s0.start;
        &&& r is Continue
        &&& (inputs.menu_up_clicked || inputs.menu_down_clicked) || c == s0.current
        &&& s1.start == if c < st { c as int } else if c >= st + VISIBLE_ROWS { c - VISIBLE_ROWS } else { st as int }
    })
}

/// The chooser of the entries of one directory.
pub struct LevelSelect {
    pub directory: String,
    pub files: Vec<DirEntry>,
    /// The selected entry.
    pub current: i32,
    /// The first entry shown.
    pub start: i32,
}

impl LevelSelect {
    /// The chooser of a directory's entries, sorted by name, the first selected.
    pub fn new(directory: String, entries: Vec<DirEntry>) -> (r: LevelSelect)
        requires
            entries@.len() <= 0x4000_0000,
        ensures
            r.wf(),
            r.directory == directory,
            r.files@ == by_name(entries@),
            r.current == 0,
            r.start == 0,
    {
        proof {
            lemma_by_name_len(entries@);
        }
        let files = sort_by_name(entries);
        LevelSelect { directory, files, current: 0, start: 0 }
    }

    /// Whether the selection and the scroll position are those of an entry,
    /// among at most 2^30 entries: more would overflow the `i32` sum by
    /// which the selection wraps around when it moves up.
    pub open spec fn wf(&self) -> bool {
        &&& self.files@.len() <= 0x4000_0000
        &&& self.files@.len() > 0 ==> 0 <= self.current < self.files@.len()
        &&& self.files@.len() == 0 ==> self.current == 0
        &&& 0 <= self.start <= self.files@.len()
    }

    /// Whether a frame's inputs can be handled: moving or choosing needs an entry.
    pub open spec fn can_handle(&self, inputs: InputSnapshot) -> bool {
        (!inputs.cancel_clicked && (inputs.menu_up_clicked || inputs.menu_down_clicked || inputs.ok_clicked))
            ==> self.files@.len() > 0
    }

    /// The selection after a frame's up and down moves, which wrap around.
    pub open spec fn moved(&self, inputs: InputSnapshot) -> int {
        let n = self.files@.len() as int;
        let c1 = if inputs.menu_up_clicked { (self.current - 1 + n) % n } else { self.current as int };
        if inputs.menu_down_clicked { (c1 + 1) % n } else { c1 }
    }

    /// Runs a frame: cancel goes back; up and down move the selection,
    /// wrapping around; ok opens the selected entry, a directory in another
    /// chooser and a file as a level; otherwise the view scrolls to keep the
    /// selection on screen.
    pub fn update(&mut self, inputs: &InputSnapshot) -> (r: SceneResult)
        requires
            old(self).wf(),
            old(self).can_handle(*inputs),
        ensures
            select_update_fits(*old(self), *inputs, *final(self), r),
    {
        if inputs.cancel_clicked {
            return SceneResult::Pop;
        }
        let n: i32 = self.files.len() as i32;
        if inputs.menu_up_clicked {
            self.current = ((self.current - 1) + n) % n;
        }
        if inputs.menu_down_clicked {
            self.current = (self.current + 1) % n;
        }
        if inputs.ok_clicked {
            let entry = &self.files[self.current as usize];
            let new_path = entry.full_path.clone();
            match entry.file_type {
                DirEntryType::Directory => SceneResult::PushLevelSelect { path: new_path },
                DirEntryType::File => SceneResult::PushLevel { path: new_path },
            }
        } else {
            if self.current < self.start {
                self.start = self.current;
            }
            if self.current >= self.start + VISIBLE_ROWS {
                self.start = self.current - VISIBLE_ROWS;
            }
            SceneResult::Continue
        }
    }
}

/// Moving the selection up and then down comes back to the entry it was on.
pub proof fn up_then_down_returns(s: LevelSelect, up: InputSnapshot, down: InputSnapshot)
    requires
        s.wf(),
        s.files@.len() > 0,
        up.menu_up_clicked && !up.menu_down_clicked,
        down.menu_down_clicked && !down.menu_up_clicked,
    ensures
        (LevelSelect { current: s.moved(up) as i32, ..s }).moved(down) == s.current,
{
    let n = s.files@.len() as int;
    let c = s.current as int;
    if c >= 1 {
        vstd::arithmetic::div_mod::lemma_fundamental_div_mod_converse(c - 1 + n, n, 1, c - 1);
    } else {
        vstd::arithmetic::div_mod::lemma_fundamental_div_mod_converse(c - 1 + n, n, 0, n - 1);
    }
    let u = s.moved(up);
    assert(0 <= u < n);
    if u + 1 < n {
        vstd::arithmetic::div_mod::lemma_fundamental_div_mod_converse(u + 1, n, 0, u + 1);
    } else {
        vstd::arithmetic::div_mod::lemma_fundamental_div_mod_converse(u + 1, n, 1, 0);
    }
}

} // verus!
