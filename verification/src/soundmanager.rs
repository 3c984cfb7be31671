//! Sound requests: the game logic asks for sounds, and the host plays them.
use vstd::prelude::*;

verus! {

/// A sound effect.
#[derive(Debug, Clone, Copy, PartialEq, Eq, Structural, Hash)]
pub enum Sound {
    Click,
    Star,
}

/// What plays sounds.
pub trait SoundPlayer {
    /// The sounds played so far, oldest first.
    spec fn heard(&self) -> Seq<Sound>;

    /// Plays a sound.
    fn play(&mut self, sound: Sound)
        ensures
            final(self).heard() == old(self).heard().push(sound),
    ;
}

/// A player that makes no noise, and keeps the list of what it was asked
/// to play.
pub struct NoopSoundPlayer {
    pub log: Ghost<Seq<Sound>>,
}

impl NoopSoundPlayer {
    /// A player that has played nothing yet.
    pub fn new() -> (r: NoopSoundPlayer)
        ensures
            r.heard() == Seq::<Sound>::empty(),
    {
        NoopSoundPlayer { log: Ghost(Seq::empty()) }
    }
}

impl SoundPlayer for NoopSoundPlayer {
    open spec fn heard(&self) -> Seq<Sound> {
        self.log@
    }

    fn play(&mut self, sound: Sound) {
        self.log = Ghost(self.log@.push(sound));
    }
}

/// Collects the sounds that the game asks for during a frame, in order;
/// the host drains and plays them.
pub struct SoundManager {
    pending: Vec<Sound>,
}

impl View for SoundManager {
    type V = Seq<Sound>;

    closed spec fn view(&self) -> Seq<Sound> {
        self.pending@
    }
}

impl SoundManager {
    /// A manager with nothing requested yet.
    pub fn noop_manager() -> (r: SoundManager)
        ensures
            r@ == Seq::<Sound>::empty(),
    {
        SoundManager { pending: Vec::new() }
    }

    /// Asks for a sound to be played.
    pub fn play(&mut self, sound: Sound)
        ensures
            final(self)@ == old(self)@.push(sound),
    {
        self.pending.push(sound);
    }

    /// Plays the requested sounds on `player`, oldest first, and forgets them.
    pub fn play_pending<P: SoundPlayer>(&mut self, player: &mut P)
        ensures
            final(self)@ == Seq::<Sound>::empty(),
            final(player).heard() == old(player).heard() + old(self)@,
    {
        let taken = self.drain();
        let mut i: usize = 0;
        while i < taken.len()
            invariant
                i <= taken@.len(),
                taken@ == old(self)@,
                player.heard() == old(player).heard() + taken@.take(i as int),
            decreases taken.len() - i,
        {
            player.play(taken[i]);
            proof {
                assert(taken@.take(i + 1) =~= taken@.take(i as int).push(taken@[i as int]));
            }
            i = i + 1;
        }
        assert(taken@.take(taken@.len() as int) =~= taken@);
    }

    /// Hands over the requested sounds, oldest first, and forgets them.
    pub fn drain(&mut self) -> (r: Vec<Sound>)
        ensures
            r@ == old(self)@,
            final(self)@ == Seq::<Sound>::empty(),
    {
        let mut taken: Vec<Sound> = Vec::new();
        std::mem::swap(&mut taken, &mut self.pending);
        taken
    }
}

} // verus!
