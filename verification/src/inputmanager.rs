//! What the player pressed in a frame, and the record of it that lets a
//! game be played back.
use vstd::prelude::*;

use crate::error::Error;
use crate::geometry::{Pixels, Point};
use crate::number::{all_digits, digit_value, digits_value, is_digit, parse_u64, unsigned_value};
use crate::text::{append, decimal, digit_char, is_ws, trim_end_seq, trim_start_seq, find_char, first_index, push_decimal_u64, split_on, split_seq, trim, trim_seq};
use std::collections::VecDeque;

verus! {

/// The inputs of one frame: which actions were just triggered ("clicked")
/// or are held ("down"), and where the mouse is.
#[derive(Debug, Clone, Copy, PartialEq, Eq)]
pub struct InputSnapshot {
    pub ok_clicked: bool,
    pub ok_down: bool,
    pub cancel_clicked: bool,
    pub player_left_down: bool,
    pub player_right_down: bool,
    pub player_crouch_down: bool,
    pub player_jump_clicked: bool,
    pub player_jump_down: bool,
    pub menu_down_clicked: bool,
    pub menu_up_clicked: bool,
    pub menu_left_clicked: bool,
    pub menu_right_clicked: bool,
    pub mouse_button_left_down: bool,
    pub mouse_position: Point<Pixels>,
}

/// `b` as bit `n` of a word.
pub fn bool_to_bin(b: bool, n: u8) -> (r: u64)
    requires
        n < 64,
    ensures
        r == (if b { 1u64 << n } else { 0u64 }),
{
    if b {
        1u64 << n
    } else {
        0
    }
}

/// Bit `n` of a word.
pub fn bin_to_bool(encoded: u64, n: u8) -> (r: bool)
    requires
        n < 64,
    ensures
        r == (encoded & (1u64 << n) != 0),
{
    (encoded & (1u64 << n)) != 0
}

/// The bits that a recording keeps of a snapshot: the first nine of its
/// actions, one bit each, in field order.
pub open spec fn snapshot_bits(s: InputSnapshot) -> u64 {
    (if s.ok_clicked { 1u64 } else { 0u64 })
        | (if s.cancel_clicked { 2u64 } else { 0u64 })
        | (if s.player_left_down { 4u64 } else { 0u64 })
        | (if s.player_right_down { 8u64 } else { 0u64 })
        | (if s.player_crouch_down { 16u64 } else { 0u64 })
        | (if s.player_jump_clicked { 32u64 } else { 0u64 })
        | (if s.player_jump_down { 64u64 } else { 0u64 })
        | (if s.menu_down_clicked { 128u64 } else { 0u64 })
        | (if s.menu_up_clicked { 256u64 } else { 0u64 })
}

/// The snapshot a recorded word stands for: the nine recorded actions from
/// its low bits, nothing else pressed, and the mouse at the origin.
pub open spec fn snapshot_of_bits(n: u64) -> InputSnapshot {
    InputSnapshot {
        ok_clicked: n & 1 != 0,
        ok_down: false,
        cancel_clicked: n & 2 != 0,
        player_left_down: n & 4 != 0,
        player_right_down: n & 8 != 0,
        player_crouch_down: n & 16 != 0,
        player_jump_clicked: n & 32 != 0,
        player_jump_down: n & 64 != 0,
        menu_down_clicked: n & 128 != 0,
        menu_up_clicked: n & 256 != 0,
        menu_left_clicked: false,
        menu_right_clicked: false,
        mouse_button_left_down: false,
        mouse_position: Point { x: Pixels(0), y: Pixels(0) },
    }
}

impl InputSnapshot {
    /// Packs the recorded actions into a word.
    pub fn encode(&self) -> (r: u64)
        ensures
            r == snapshot_bits(*self),
    {
        let mut result: u64 = 0;
        result = result | bool_to_bin(self.ok_clicked, 0);
        result = result | bool_to_bin(self.cancel_clicked, 1);
        result = result | bool_to_bin(self.player_left_down, 2);
        result = result | bool_to_bin(self.player_right_down, 3);
        result = result | bool_to_bin(self.player_crouch_down, 4);
        result = result | bool_to_bin(self.player_jump_clicked, 5);
        result = result | bool_to_bin(self.player_jump_down, 6);
        result = result | bool_to_bin(self.menu_down_clicked, 7);
        result = result | bool_to_bin(self.menu_up_clicked, 8);
        assert(1u64 << 0u8 == 1u64 && 1u64 << 1u8 == 2u64 && 1u64 << 2u8 == 4u64 && 1u64 << 3u8 == 8u64 && 1u64 << 4u8
            == 16u64 && 1u64 << 5u8 == 32u64 && 1u64 << 6u8 == 64u64 && 1u64 << 7u8 == 128u64 && 1u64 << 8u8 == 256u64)
            by (bit_vector);
        assert(0u64 | (if self.ok_clicked { 1u64 } else { 0u64 }) == (if self.ok_clicked { 1u64 } else { 0u64 }))
            by (bit_vector);
        result
    }

    /// Unpacks a recorded word.
    pub fn decode(n: u64) -> (r: InputSnapshot)
        ensures
            r == snapshot_of_bits(n),
    {
        assert(1u64 << 0u8 == 1u64 && 1u64 << 1u8 == 2u64 && 1u64 << 2u8 == 4u64 && 1u64 << 3u8 == 8u64 && 1u64 << 4u8
            == 16u64 && 1u64 << 5u8 == 32u64 && 1u64 << 6u8 == 64u64 && 1u64 << 7u8 == 128u64 && 1u64 << 8u8 == 256u64)
            by (bit_vector);
        InputSnapshot {
            ok_clicked: bin_to_bool(n, 0),
            ok_down: false,
            cancel_clicked: bin_to_bool(n, 1),
            player_left_down: bin_to_bool(n, 2),
            player_right_down: bin_to_bool(n, 3),
            player_crouch_down: bin_to_bool(n, 4),
            player_jump_clicked: bin_to_bool(n, 5),
            player_jump_down: bin_to_bool(n, 6),
            menu_down_clicked: bin_to_bool(n, 7),
            menu_up_clicked: bin_to_bool(n, 8),
            menu_left_clicked: false,
            menu_right_clicked: false,
            mouse_button_left_down: false,
            mouse_position: Point::new(Pixels::new(0), Pixels::new(0)),
        }
    }
}

/// Decoding an encoded snapshot gives back every action that a recording
/// keeps.
pub proof fn decode_encode_keeps_recorded(s: InputSnapshot)
    ensures
        ({
            let d = snapshot_of_bits(snapshot_bits(s));
            &&& d.ok_clicked == s.ok_clicked
            &&& d.cancel_clicked == s.cancel_clicked
            &&& d.player_left_down == s.player_left_down
            &&& d.player_right_down == s.player_right_down
            &&& d.player_crouch_down == s.player_crouch_down
            &&& d.player_jump_clicked == s.player_jump_clicked
            &&& d.player_jump_down == s.player_jump_down
            &&& d.menu_down_clicked == s.menu_down_clicked
            &&& d.menu_up_clicked == s.menu_up_clicked
        }),
{
    let b0 = s.ok_clicked;
    let b1 = s.cancel_clicked;
    let b2 = s.player_left_down;
    let b3 = s.player_right_down;
    let b4 = s.player_crouch_down;
    let b5 = s.player_jump_clicked;
    let b6 = s.player_jump_down;
    let b7 = s.menu_down_clicked;
    let b8 = s.menu_up_clicked;
    let n = snapshot_bits(s);
    assert(n == (if b0 { 1u64 } else { 0u64 }) | (if b1 { 2u64 } else { 0u64 }) | (if b2 { 4u64 } else { 0u64 }) | (if b3 { 8u64 } else { 0u64 }) | (if b4 { 16u64 } else { 0u64 }) | (if b5 { 32u64 } else { 0u64 }) | (if b6 { 64u64 } else { 0u64 }) | (if b7 { 128u64 } else { 0u64 }) | (if b8 { 256u64 } else { 0u64 }));
    assert({
        &&& (n & 1 != 0) == b0
        &&& (n & 2 != 0) == b1
        &&& (n & 4 != 0) == b2
        &&& (n & 8 != 0) == b3
        &&& (n & 16 != 0) == b4
        &&& (n & 32 != 0) == b5
        &&& (n & 64 != 0) == b6
        &&& (n & 128 != 0) == b7
        &&& (n & 256 != 0) == b8
    }) by (bit_vector)
        requires
            n == (if b0 { 1u64 } else { 0u64 }) | (if b1 { 2u64 } else { 0u64 }) | (if b2 { 4u64 } else { 0u64 }) | (if b3 { 8u64 } else { 0u64 }) | (if b4 { 16u64 } else { 0u64 }) | (if b5 { 32u64 } else { 0u64 }) | (if b6 { 64u64 } else { 0u64 }) | (if b7 { 128u64 } else { 0u64 }) | (if b8 { 256u64 } else { 0u64 }),
    ;
}

/// The line a record saves for a change: `frame,word` in decimal.
pub open spec fn record_text(frame: u64, word: u64) -> Seq<char> {
    decimal(frame as nat) + seq![','] + decimal(word as nat)
}

/// The text a record saves: its lines joined by newlines.
pub open spec fn saved_text(es: Seq<(u64, u64)>) -> Seq<char>
    decreases es.len(),
{
    if es.len() == 0 {
        Seq::empty()
    } else if es.len() == 1 {
        record_text(es[0].0, es[0].1)
    } else {
        saved_text(es.drop_last()) + seq!['\n'] + record_text(es.last().0, es.last().1)
    }
}

/// A change of input: from `frame` on, the recorded word is `snapshot`.
#[derive(Debug, Clone, Copy)]
pub struct RecorderEntry {
    pub frame: u64,
    pub snapshot: u64,
}

/// Records the inputs of a game as the frames at which they change, and
/// plays such a record back.
pub struct InputRecorder {
    pub previous: u64,
    pub queue: VecDeque<RecorderEntry>,
}

/// The entries of a record as pairs of frame and word.
pub open spec fn entries_view(q: Seq<RecorderEntry>) -> Seq<(u64, u64)> {
    q.map_values(|e: RecorderEntry| (e.frame, e.snapshot))
}

/// What one line of a saved record says.
pub enum RecordLine {
    /// A blank line.
    Blank,
    /// A frame and the word recorded from it on.
    Entry(u64, u64),
    /// A line without a comma.
    MissingComma,
    /// A frame or a word that is not a decimal `u64`: the text of it.
    BadNumber(Seq<char>),
}

/// A line of a saved record: `frame,word` in decimal, with white space
/// around it ignored.
pub open spec fn record_line(line: Seq<char>) -> RecordLine {
    let t = trim_seq(line);
    if t.len() == 0 {
        RecordLine::Blank
    } else {
        match first_index(t, ',') {
            None => RecordLine::MissingComma,
            Some(k) => {
                let f = t.subrange(0, k);
                let w = t.subrange(k + 1, t.len() as int);
                match unsigned_value(f, u64::MAX as int) {
                    None => RecordLine::BadNumber(f),
                    Some(fv) => match unsigned_value(w, u64::MAX as int) {
                        None => RecordLine::BadNumber(w),
                        Some(wv) => RecordLine::Entry(fv as u64, wv as u64),
                    },
                }
            },
        }
    }
}

/// The entries that the lines of a saved record give, read in order up
/// to the first bad line, and that line's fault if there is one.
pub open spec fn record_fold(lines: Seq<Seq<char>>) -> (Seq<(u64, u64)>, Option<RecordLine>)
    decreases lines.len(),
{
    if lines.len() == 0 {
        (Seq::empty(), None)
    } else {
        let (q, err) = record_fold(lines.drop_last());
        if err is Some {
            (q, err)
        } else {
            match record_line(lines.last()) {
                RecordLine::Blank => (q, None),
                RecordLine::Entry(f, w) => (q.push((f, w)), None),
                bad => (q, Some(bad)),
            }
        }
    }
}

impl InputRecorder {
    /// An empty record, with nothing pressed.
    pub fn new() -> (r: InputRecorder)
        ensures
            r.previous == 0,
            r.queue@.len() == 0,
    {
        InputRecorder { previous: 0, queue: VecDeque::new() }
    }

    /// Notes the inputs of `frame`, if they differ from the last ones noted.
    pub fn record(&mut self, frame: u64, snapshot: &InputSnapshot)
        ensures
            snapshot_bits(*snapshot) == old(self).previous ==> *final(self) == *old(self),
            snapshot_bits(*snapshot) != old(self).previous ==> final(self).previous == snapshot_bits(*snapshot)
                && entries_view(final(self).queue@) == entries_view(old(self).queue@).push((frame, snapshot_bits(*snapshot))),
    {
        let snapshot = snapshot.encode();
        if self.previous == snapshot {
            return;
        }
        self.previous = snapshot;
        self.queue.push_back(RecorderEntry { frame, snapshot });
        proof {
            assert(entries_view(self.queue@) =~= entries_view(old(self).queue@).push((frame, snapshot)));
        }
    }

    /// The inputs of `frame` in the record: the next change, if it is due
    /// at this frame, replaces the current inputs.
    pub fn playback(&mut self, frame: u64) -> (r: InputSnapshot)
        ensures
            ({
                let q = old(self).queue@;
                if q.len() > 0 && q[0].frame == frame {
                    &&& final(self).previous == q[0].snapshot
                    &&& final(self).queue@ == q.drop_first()
                } else {
                    *final(self) == *old(self)
                }
            }),
            r == snapshot_of_bits(final(self).previous),
    {
        let due = self.queue.len() > 0 && self.queue[0].frame == frame;
        if due {
            let next = self.queue.pop_front();
            match next {
                Some(e) => {
                    self.previous = e.snapshot;
                },
                None => {},
            }
        }
        InputSnapshot::decode(self.previous)
    }

    /// Reads one line of a saved record.
    fn parse_line(line: &str) -> (r: Result<Option<RecorderEntry>, Error>)
        ensures
            match record_line(line@) {
                RecordLine::Blank => r == Ok::<Option<RecorderEntry>, Error>(None),
                RecordLine::Entry(f, w) => r matches Ok(Some(e)) && e.frame == f && e.snapshot == w,
                RecordLine::MissingComma => r == Err::<Option<RecorderEntry>, Error>(Error::MissingComma),
                RecordLine::BadNumber(t) => r matches Err(Error::InvalidNumber(x)) && x@ == t,
            },
    {
        let line = trim(line);
        let n = line.unicode_len();
        if n == 0 {
            return Ok(None);
        }
        let comma = match find_char(line, ',') {
            Some(k) => k,
            None => {
                return Err(Error::MissingComma);
            },
        };
        let frame_text = line.substring_char(0, comma);
        let snapshot_text = line.substring_char(comma + 1, n);
        let frame = match parse_u64(frame_text) {
            Some(f) => f,
            None => {
                return Err(Error::InvalidNumber(frame_text.to_owned()));
            },
        };
        let snapshot = match parse_u64(snapshot_text) {
            Some(w) => w,
            None => {
                return Err(Error::InvalidNumber(snapshot_text.to_owned()));
            },
        };
        Ok(Some(RecorderEntry { frame, snapshot }))
    }

    /// Replaces the record with the one saved in `text`: a line
    /// `frame,word` per change. It stops at the first bad line, keeping
    /// what came before it.
    pub fn load(&mut self, text: &str) -> (r: Result<(), Error>)
        ensures
            final(self).previous == 0,
            entries_view(final(self).queue@) == record_fold(split_seq(text@, '\n')).0,
            match record_fold(split_seq(text@, '\n')).1 {
                None => r is Ok,
                Some(RecordLine::MissingComma) => r == Err::<(), Error>(Error::MissingComma),
                Some(RecordLine::BadNumber(t)) => r matches Err(Error::InvalidNumber(x)) && x@ == t,
                Some(_) => false,
            },
    {
        self.previous = 0;
        self.queue.clear();
        let lines = split_on(text, '\n');
        let ghost all = split_seq(text@, '\n');
        let mut i: usize = 0;
        while i < lines.len()
            invariant
                lines@.len() == all.len(),
                forall|j: int| 0 <= j < lines@.len() ==> #[trigger] lines@[j]@ == all[j],
                all == split_seq(text@, '\n'),
                i <= lines@.len(),
                self.previous == 0,
                record_fold(all.take(i as int)).1 is None,
                entries_view(self.queue@) == record_fold(all.take(i as int)).0,
            decreases lines.len() - i,
        {
            proof {
                assert(all.take(i + 1).drop_last() =~= all.take(i as int));
                assert(all.take(i + 1).last() == lines@[i as int]@);
            }
            match Self::parse_line(lines[i]) {
                Ok(None) => {},
                Ok(Some(e)) => {
                    self.queue.push_back(e);
                    proof {
                        assert(entries_view(self.queue@) =~= record_fold(all.take(i + 1)).0);
                    }
                },
                Err(err) => {
                    proof {
                        lemma_fold_stops(all, i as int);
                    }
                    return Err(err);
                },
            }
            i = i + 1;
        }
        proof {
            assert(all.take(i as int) =~= all);
        }
        Ok(())
    }

    /// The text a record is saved as: a line `frame,word` per change, in
    /// decimal, the lines joined by newlines.
    pub fn save_text(&self) -> (r: String)
        ensures
            r@ == saved_text(entries_view(self.queue@)),
    {
        let mut r = String::new();
        let n = self.queue.len();
        let mut i: usize = 0;
        proof {
            reveal_strlit(",");
            reveal_strlit("\n");
            assert(entries_view(self.queue@).take(0) =~= Seq::<(u64, u64)>::empty());
        }
        while i < n
            invariant
                n == self.queue@.len(),
                i <= n,
                ","@ == seq![','],
                "\n"@ == seq!['\n'],
                r@ == saved_text(entries_view(self.queue@).take(i as int)),
            decreases n - i,
        {
            let e = self.queue[i];
            let ghost before = r@;
            let ghost es = entries_view(self.queue@);
            if i > 0 {
                append(&mut r, "\n");
            }
            let ghost mid = r@;
            push_decimal_u64(&mut r, e.frame);
            append(&mut r, ",");
            push_decimal_u64(&mut r, e.snapshot);
            proof {
                let t = es.take(i + 1);
                assert(t.drop_last() =~= es.take(i as int));
                assert(t.last() == (e.frame, e.snapshot));
                assert(r@ =~= mid + record_text(e.frame, e.snapshot));
                if i == 0 {
                    assert(t.len() == 1);
                    assert(r@ =~= saved_text(t));
                } else {
                    assert(mid =~= before + seq!['\n']);
                    assert(r@ =~= saved_text(t));
                }
            }
            i = i + 1;
        }
        proof {
            assert(entries_view(self.queue@).take(n as int) =~= entries_view(self.queue@));
        }
        r
    }

    /// The saved form of the record, one `(frame, word)` per change, in order.
    pub fn entries(&self) -> (r: Vec<(u64, u64)>)
        ensures
            r@ == entries_view(self.queue@),
    {
        let mut r: Vec<(u64, u64)> = Vec::new();
        let n = self.queue.len();
        let mut i: usize = 0;
        while i < n
            invariant
                n == self.queue@.len(),
                i <= n,
                r@ == entries_view(self.queue@.take(i as int)),
            decreases n - i,
        {
            let e = self.queue[i];
            r.push((e.frame, e.snapshot));
            proof {
                assert(entries_view(self.queue@.take(i + 1)) =~= entries_view(self.queue@.take(i as int)).push((e.frame, e.snapshot)));
            }
            i = i + 1;
        }
        proof {
            assert(self.queue@.take(n as int) =~= self.queue@);
        }
        r
    }
}

/// Once a line of a record is bad, the lines after it change nothing.
proof fn lemma_fold_stops(all: Seq<Seq<char>>, i: int)
    requires
        0 <= i < all.len(),
        record_fold(all.take(i)).1 is None,
        match record_line(all[i]) {
            RecordLine::Blank | RecordLine::Entry(_, _) => false,
            _ => true,
        },
    ensures
        record_fold(all) == (record_fold(all.take(i)).0, Some(record_line(all[i]))),
    decreases all.len() - i,
{
    if i + 1 == all.len() {
        assert(all.drop_last() =~= all.take(i));
    } else {
        assert(all.drop_last().take(i) =~= all.take(i));
        assert(all.drop_last()[i] == all[i]);
        lemma_fold_stops(all.drop_last(), i);
    }
}

/// Where a game's inputs come from and go.
pub enum RecordOption {
    /// From the player, not recorded.
    Off,
    /// From the player, recorded to the named file.
    Record(String),
    /// Played back from the named file.
    Playback(String),
}

/// The actions that the inputs are mapped to.
#[derive(Debug, Clone, Copy, PartialEq, Eq, Structural)]
pub enum BinaryInput {
    OkTrigger,
    OkDown,
    Cancel,
    PlayerLeft,
    PlayerRight,
    PlayerCrouch,
    PlayerJumpTrigger,
    PlayerJumpDown,
    MenuDown,
    MenuUp,
    MenuLeft,
    MenuRight,
    MouseButtonLeft,
}

/// Every action, in declaration order.
pub fn all_binary_inputs() -> (r: Vec<BinaryInput>)
    ensures
        r@ == seq![
            BinaryInput::OkTrigger,
            BinaryInput::OkDown,
            BinaryInput::Cancel,
            BinaryInput::PlayerLeft,
            BinaryInput::PlayerRight,
            BinaryInput::PlayerCrouch,
            BinaryInput::PlayerJumpTrigger,
            BinaryInput::PlayerJumpDown,
            BinaryInput::MenuDown,
            BinaryInput::MenuUp,
            BinaryInput::MenuLeft,
            BinaryInput::MenuRight,
            BinaryInput::MouseButtonLeft,
        ],
{
    vec![
        BinaryInput::OkTrigger,
        BinaryInput::OkDown,
        BinaryInput::Cancel,
        BinaryInput::PlayerLeft,
        BinaryInput::PlayerRight,
        BinaryInput::PlayerCrouch,
        BinaryInput::PlayerJumpTrigger,
        BinaryInput::PlayerJumpDown,
        BinaryInput::MenuDown,
        BinaryInput::MenuUp,
        BinaryInput::MenuLeft,
        BinaryInput::MenuRight,
        BinaryInput::MouseButtonLeft,
    ]
}

/// An input that is on in the frame its source is pressed, and not again
/// until the source is released and pressed anew.
#[derive(Debug, Clone, Copy)]
pub struct TriggerInput {
    pub already_pressed: bool,
    pub on: bool,
}

impl TriggerInput {
    /// A trigger whose source is released.
    pub fn new() -> (r: TriggerInput)
        ensures
            !r.already_pressed,
            !r.on,
    {
        TriggerInput { already_pressed: false, on: false }
    }

    /// Follows the source for one frame.
    pub fn update(&mut self, pressed: bool)
        ensures
            *final(self) == trigger_step(*old(self), pressed),
    {
        self.on = if pressed {
            if !self.already_pressed {
                self.already_pressed = true;
                true
            } else {
                false
            }
        } else {
            self.already_pressed = false;
            false
        };
    }

    pub fn is_on(&self) -> (r: bool)
        ensures
            r == self.on,
    {
        self.on
    }
}

/// A trigger after following its source for one frame.
pub open spec fn trigger_step(t: TriggerInput, pressed: bool) -> TriggerInput {
    TriggerInput { already_pressed: pressed, on: pressed && !t.already_pressed }
}

/// A trigger after following its source through `presses`, one a frame.
pub open spec fn trigger_run(t: TriggerInput, presses: Seq<bool>) -> TriggerInput
    decreases presses.len(),
{
    if presses.len() == 0 {
        t
    } else {
        trigger_step(trigger_run(t, presses.drop_last()), presses.last())
    }
}

/// A press held over several frames fires a trigger in its first frame
/// only: after the second frame of holding, the trigger is off.
pub proof fn trigger_fires_once(t: TriggerInput, presses: Seq<bool>)
    requires
        presses.len() >= 2,
        presses.last() && presses[presses.len() - 2],
    ensures
        !trigger_run(t, presses).on,
{
    let prev = presses.drop_last();
    assert(prev.last() == presses[presses.len() - 2]);
    assert(trigger_run(t, prev) == trigger_step(trigger_run(t, prev.drop_last()), prev.last()));
    assert(trigger_run(t, prev).already_pressed);
    assert(trigger_run(t, presses) == trigger_step(trigger_run(t, prev), presses.last()));
}

/// An input that is on exactly while its source is pressed, as of the last
/// frame it followed.
#[derive(Debug, Clone, Copy)]
pub struct CachedBinaryInput {
    pub on: bool,
}

impl CachedBinaryInput {
    pub fn new() -> (r: CachedBinaryInput)
        ensures
            !r.on,
    {
        CachedBinaryInput { on: false }
    }

    /// Follows the source for one frame.
    pub fn update(&mut self, pressed: bool)
        ensures
            final(self).on == pressed,
    {
        self.on = pressed;
    }

    pub fn is_on(&self) -> (r: bool)
        ensures
            r == self.on,
    {
        self.on
    }
}

proof fn lemma_digit_char(d: nat)
    requires
        d < 10,
    ensures
        is_digit(digit_char(d)),
        digit_value(digit_char(d)) == d,
{
}

/// The decimal digits of a number are digits, and read back as it.
proof fn lemma_decimal(n: nat)
    ensures
        decimal(n).len() > 0,
        forall|i: int| 0 <= i < decimal(n).len() ==> is_digit(#[trigger] decimal(n)[i]),
        digits_value(decimal(n)) == n,
    decreases n,
{
    if n < 10 {
        lemma_digit_char(n);
        assert(decimal(n) == seq![digit_char(n)]);
        assert(decimal(n).drop_last() =~= Seq::<char>::empty());
        assert(digits_value(Seq::<char>::empty()) == 0);
        assert(decimal(n).last() == digit_char(n));
    } else {
        lemma_decimal(n / 10);
        lemma_digit_char(n % 10);
        let s = decimal(n / 10);
        assert(decimal(n) == s.push(digit_char(n % 10)));
        assert(decimal(n).drop_last() =~= s);
        assert forall|i: int| 0 <= i < decimal(n).len() implies is_digit(#[trigger] decimal(n)[i]) by {
            if i < s.len() {
                assert(decimal(n)[i] == s[i]);
            }
        }
        assert(decimal(n).last() == digit_char(n % 10));
        assert(digits_value(decimal(n)) == digits_value(s) * 10 + digit_value(digit_char(n % 10)));
        assert((n / 10) * 10 + n % 10 == n) by (nonlinear_arith);
    }
}

/// A number's decimal digits parse back as it.
proof fn lemma_decimal_parses(n: u64)
    ensures
        unsigned_value(decimal(n as nat), u64::MAX as int) == Some(n as int),
{
    lemma_decimal(n as nat);
    let d = decimal(n as nat);
    assert(is_digit(d[0]));
    assert(d[0] != '+');
}

/// Digits are not white space, commas or newlines.
proof fn lemma_digit_plain(c: char)
    requires
        is_digit(c),
    ensures
        !is_ws(c),
        c != ',',
        c != '\n',
{
}

/// The line a record saves reads back as the change it saves.
proof fn lemma_record_line(f: u64, w: u64)
    ensures
        record_line(record_text(f, w)) == RecordLine::Entry(f, w),
        forall|i: int| 0 <= i < record_text(f, w).len() ==> #[trigger] record_text(f, w)[i] != '\n',
{
    let df = decimal(f as nat);
    let dw = decimal(w as nat);
    let t = record_text(f, w);
    lemma_decimal(f as nat);
    lemma_decimal(w as nat);
    lemma_decimal_parses(f);
    lemma_decimal_parses(w);
    let k = df.len() as int;
    assert(t.len() == df.len() + 1 + dw.len());
    assert forall|i: int| 0 <= i < t.len() implies #[trigger] t[i] != '\n' && (t[i] == ',' <==> i == k) && !is_ws(t[i]) by {
        if i < k {
            assert(t[i] == df[i]);
            lemma_digit_plain(df[i]);
        } else if i > k {
            assert(t[i] == dw[i - k - 1]);
            lemma_digit_plain(dw[i - k - 1]);
        } else {
            assert(t[i] == ',');
        }
    }
    assert(trim_start_seq(t) == t);
    assert(trim_end_seq(t) == t);
    assert(trim_seq(t) == t);
    assert(t[k] == ',');
    let fi = first_index(t, ',');
    assert(fi == Some(k)) by {
        let c = choose|i: int| 0 <= i < t.len() && t[i] == ',' && forall|j: int| 0 <= j < i ==> t[j] != ',';
        assert(0 <= k < t.len() && t[k] == ',' && forall|j: int| 0 <= j < k ==> t[j] != ',');
    }
    assert(t.subrange(0, k) =~= df);
    assert(t.subrange(k + 1, t.len() as int) =~= dw);
}

/// Appending text without separators extends the last piece of a split.
proof fn lemma_split_plain(s: Seq<char>, t: Seq<char>, sep: char)
    requires
        forall|i: int| 0 <= i < t.len() ==> #[trigger] t[i] != sep,
    ensures
        split_seq(s + t, sep) == split_seq(s, sep).update(split_seq(s, sep).len() - 1, split_seq(s, sep).last() + t),
        split_seq(s, sep).len() >= 1,
    decreases t.len(),
{
    lemma_split_len(s, sep);
    if t.len() == 0 {
        assert(s + t =~= s);
        assert(split_seq(s, sep).last() + t =~= split_seq(s, sep).last());
        assert(split_seq(s, sep).update(split_seq(s, sep).len() - 1, split_seq(s, sep).last()) =~= split_seq(s, sep));
    } else {
        let t0 = t.drop_last();
        lemma_split_plain(s, t0, sep);
        assert((s + t).drop_last() =~= s + t0);
        assert((s + t).last() == t.last());
        let p = split_seq(s + t0, sep);
        let q = split_seq(s, sep);
        assert(t.last() != sep);
        assert(p.len() == q.len());
        assert(p.last() == q.last() + t0);
        assert(p.last().push(t.last()) =~= q.last() + t);
        assert(p.update(p.len() - 1, p.last().push(t.last())) =~= q.update(q.len() - 1, q.last() + t));
    }
}

proof fn lemma_split_len(s: Seq<char>, sep: char)
    ensures
        split_seq(s, sep).len() >= 1,
    decreases s.len(),
{
    if s.len() > 0 {
        lemma_split_len(s.drop_last(), sep);
    }
}

/// The lines of a saved record are the saved lines of its changes.
proof fn lemma_saved_lines(es: Seq<(u64, u64)>)
    requires
        es.len() > 0,
    ensures
        split_seq(saved_text(es), '\n') == es.map_values(|e: (u64, u64)| record_text(e.0, e.1)),
    decreases es.len(),
{
    let last = es.last();
    let rt = record_text(last.0, last.1);
    lemma_record_line(last.0, last.1);
    if es.len() == 1 {
        assert(saved_text(es) == rt);
        lemma_split_plain(Seq::<char>::empty(), rt, '\n');
        assert(Seq::<char>::empty() + rt =~= rt);
        assert(split_seq(Seq::<char>::empty(), '\n') == seq![Seq::<char>::empty()]);
        assert(es.map_values(|e: (u64, u64)| record_text(e.0, e.1)) =~= seq![rt]);
        assert(Seq::<char>::empty() + rt =~= rt);
    } else {
        let prev = es.drop_last();
        lemma_saved_lines(prev);
        let head = saved_text(prev) + seq!['\n'];
        assert(saved_text(es) == head + rt);
        lemma_split_plain(head, rt, '\n');
        assert(head.drop_last() =~= saved_text(prev));
        assert(split_seq(head, '\n') == split_seq(saved_text(prev), '\n').push(Seq::<char>::empty()));
        assert(Seq::<char>::empty() + rt =~= rt);
        assert(es.map_values(|e: (u64, u64)| record_text(e.0, e.1)) =~= prev.map_values(|e: (u64, u64)| record_text(e.0, e.1)).push(rt));
    }
}

/// Reading the saved lines of changes gives back the changes.
proof fn lemma_fold_saved(es: Seq<(u64, u64)>)
    ensures
        record_fold(es.map_values(|e: (u64, u64)| record_text(e.0, e.1))) == (es, None::<RecordLine>),
    decreases es.len(),
{
    let lines = es.map_values(|e: (u64, u64)| record_text(e.0, e.1));
    if es.len() > 0 {
        lemma_fold_saved(es.drop_last());
        assert(lines.drop_last() =~= es.drop_last().map_values(|e: (u64, u64)| record_text(e.0, e.1)));
        lemma_record_line(es.last().0, es.last().1);
        assert(es.drop_last().push(es.last()) =~= es);
    } else {
        assert(lines =~= Seq::<Seq<char>>::empty());
    }
}

/// Loading the text a record is saved as gives back the record's changes,
/// in order, without an error.
pub proof fn saved_record_loads(es: Seq<(u64, u64)>)
    ensures
        record_fold(split_seq(saved_text(es), '\n')) == (es, None::<RecordLine>),
{
    if es.len() == 0 {
        assert(saved_text(es) == Seq::<char>::empty());
        assert(split_seq(Seq::<char>::empty(), '\n') == seq![Seq::<char>::empty()]);
        let lines = seq![Seq::<char>::empty()];
        assert(lines.drop_last() =~= Seq::<Seq<char>>::empty());
        assert(record_fold(Seq::<Seq<char>>::empty()) == (Seq::<(u64, u64)>::empty(), None::<RecordLine>));
        assert(trim_seq(Seq::<char>::empty()) =~= Seq::<char>::empty());
        assert(record_line(lines.last()) == RecordLine::Blank);
        assert(es =~= Seq::<(u64, u64)>::empty());
    } else {
        lemma_saved_lines(es);
        lemma_fold_saved(es);
    }
}

} // verus!
