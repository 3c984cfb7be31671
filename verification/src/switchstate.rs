//! The named switches that buttons and switch tiles turn on and off, and
//! the conditions that tiles and platforms test against them.
use vstd::prelude::*;

use crate::text::{after_prefix, same_text, strip_prefix_char};

verus! {

/// The set of switches that are on.
pub struct SwitchState {
    on: Vec<String>,
}

/// `on` with `s` flipped.
pub open spec fn flipped(on: Set<Seq<char>>, s: Seq<char>) -> Set<Seq<char>> {
    if on.contains(s) {
        on.remove(s)
    } else {
        on.insert(s)
    }
}

/// The switches that are on after the command `s`: `~name` toggles `name`,
/// `!name` turns it off, and any other text turns on the switch it names.
pub open spec fn after_command(on: Set<Seq<char>>, s: Seq<char>) -> Set<Seq<char>> {
    match after_prefix(s, '~') {
        Some(t) => flipped(on, t),
        None => match after_prefix(s, '!') {
            Some(t) => on.remove(t),
            None => on.insert(s),
        },
    }
}

/// Whether the condition `s` holds: `!name` holds when `name` is off, any
/// other text when the switch it names is on.
pub open spec fn condition_holds(on: Set<Seq<char>>, s: Seq<char>) -> bool {
    match after_prefix(s, '!') {
        Some(t) => !on.contains(t),
        None => on.contains(s),
    }
}

impl View for SwitchState {
    type V = Set<Seq<char>>;

    closed spec fn view(&self) -> Set<Seq<char>> {
        Set::new(|s: Seq<char>| exists|i: int| 0 <= i < self.on@.len() && self.on@[i]@ == s)
    }
}

impl SwitchState {
    #[verifier::type_invariant]
    closed spec fn distinct(self) -> bool {
        forall|i: int, j: int|
            0 <= i < self.on@.len() && 0 <= j < self.on@.len() && i != j ==> self.on@[i]@
                != self.on@[j]@
    }

    pub fn new() -> (r: Self)
        ensures
            r@ == Set::<Seq<char>>::empty(),
    {
        let r = SwitchState { on: Vec::new() };
        assert(r@ =~= Set::<Seq<char>>::empty());
        r
    }

    /// The position of `s` in the list, if it is on.
    fn find(&self, s: &str) -> (r: Option<usize>)
        ensures
            match r {
                Some(i) => i < self.on@.len() && self.on@[i as int]@ == s@,
                None => !self@.contains(s@),
            },
    {
        let mut i: usize = 0;
        while i < self.on.len()
            invariant
                i <= self.on@.len(),
                forall|j: int| 0 <= j < i ==> self.on@[j]@ != s@,
            decreases self.on.len() - i,
        {
            if same_text(self.on[i].as_str(), s) {
                return Some(i);
            }
            i = i + 1;
        }
        None
    }

    fn turn_on(&mut self, s: &str)
        ensures
            final(self)@ == old(self)@.insert(s@),
    {
        proof {
            use_type_invariant(&*self);
        }
        if self.find(s).is_some() {
            assert(self@.insert(s@) =~= self@);
            return;
        }
        let ghost before = self@;
        let mut on: Vec<String> = Vec::new();
        std::mem::swap(&mut on, &mut self.on);
        on.push(s.to_owned());
        self.on = on;
        assert(self@ =~= before.insert(s@)) by {
            assert forall|t: Seq<char>| self@.contains(t) implies before.insert(s@).contains(t) by {
                let i = choose|i: int| 0 <= i < self.on@.len() && self.on@[i]@ == t;
                if i < self.on@.len() - 1 {
                    assert(before.contains(t));
                }
            }
            assert forall|t: Seq<char>| before.insert(s@).contains(t) implies self@.contains(t) by {
                if t == s@ {
                    assert(self.on@[self.on@.len() - 1]@ == t);
                } else {
                    let i = choose|i: int| 0 <= i < old(self).on@.len() && old(self).on@[i]@ == t;
                    assert(self.on@[i]@ == t);
                }
            }
        }
    }

    fn turn_off(&mut self, s: &str)
        ensures
            final(self)@ == old(self)@.remove(s@),
    {
        proof {
            use_type_invariant(&*self);
        }
        match self.find(s) {
            None => {
                assert(self@.remove(s@) =~= self@);
            },
            Some(i) => {
                let ghost before = self@;
                let ghost old_on = self.on@;
                let mut on: Vec<String> = Vec::new();
        std::mem::swap(&mut on, &mut self.on);
                on.remove(i);
                self.on = on;
                assert(self@ =~= before.remove(s@)) by {
                    assert forall|t: Seq<char>| self@.contains(t) implies before.remove(
                        s@,
                    ).contains(t) by {
                        let k = choose|k: int| 0 <= k < self.on@.len() && self.on@[k]@ == t;
                        if k < i {
                            assert(old_on[k]@ == t);
                        } else {
                            assert(old_on[k + 1]@ == t);
                        }
                    }
                    assert forall|t: Seq<char>| before.remove(s@).contains(t) implies self@.contains(
                        t,
                    ) by {
                        let k = choose|k: int| 0 <= k < old_on.len() && old_on[k]@ == t;
                        if k < i {
                            assert(self.on@[k]@ == t);
                        } else {
                            assert(self.on@[k - 1]@ == t);
                        }
                    }
                }
            },
        }
    }

    pub fn toggle(&mut self, s: &str)
        ensures
            final(self)@ == flipped(old(self)@, s@),
    {
        if self.find(s).is_some() {
            self.turn_off(s);
        } else {
            self.turn_on(s);
        }
    }

    fn is_on(&self, s: &str) -> (r: bool)
        ensures
            r == self@.contains(s@),
    {
        match self.find(s) {
            Some(i) => {
                assert(self@.contains(s@)) by {
                    assert(self.on@[i as int]@ == s@);
                }
                true
            },
            None => false,
        }
    }

    pub fn apply_command(&mut self, s: &str)
        ensures
            final(self)@ == after_command(old(self)@, s@),
    {
        if let Some(toggled) = strip_prefix_char(s, '~') {
            self.toggle(toggled);
        } else if let Some(negated) = strip_prefix_char(s, '!') {
            self.turn_off(negated);
        } else {
            self.turn_on(s);
        }
    }

    pub fn is_condition_true(&self, s: &str) -> (r: bool)
        ensures
            r == condition_holds(self@, s@),
    {
        match strip_prefix_char(s, '!') {
            Some(negated) => !self.is_on(negated),
            None => self.is_on(s),
        }
    }
}

/// Toggling a switch twice leaves every switch as it was.
pub proof fn toggle_twice_restores(on: Set<Seq<char>>, s: Seq<char>)
    ensures
        flipped(flipped(on, s), s) == on,
{
    assert(flipped(flipped(on, s), s) =~= on);
}

/// A toggle command flips exactly the switch it names.
pub proof fn toggle_command_flips(on: Set<Seq<char>>, s: Seq<char>)
    ensures
        after_command(on, seq!['~'] + s).contains(s) == !on.contains(s),
        forall|t: Seq<char>| t != s ==> after_command(on, seq!['~'] + s).contains(t) == on.contains(t),
{
    assert((seq!['~'] + s).drop_first() =~= s);
}

/// After `name` is turned on the condition `name` holds; after `!name` its
/// negation holds.
pub proof fn command_then_condition(on: Set<Seq<char>>, s: Seq<char>)
    requires
        after_prefix(s, '~') is None,
        after_prefix(s, '!') is None,
    ensures
        condition_holds(after_command(on, s), s),
        condition_holds(after_command(on, seq!['!'] + s), seq!['!'] + s),
{
    assert((seq!['!'] + s).drop_first() =~= s);
}

/// A negated condition holds exactly when the plain one does not.
pub proof fn negated_condition(on: Set<Seq<char>>, s: Seq<char>)
    requires
        after_prefix(s, '!') is None,
    ensures
        condition_holds(on, seq!['!'] + s) == !condition_holds(on, s),
{
    assert((seq!['!'] + s).drop_first() =~= s);
}

} // verus!
