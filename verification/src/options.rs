//! The command-line options of the game.
use vstd::prelude::*;

use crate::error::Error;
use crate::inputmanager::RecordOption;

verus! {

/// The options the game is started with.
pub struct Args {
    pub fullscreen: bool,
    /// Record the inputs to this file.
    pub record: Option<String>,
    /// Play the inputs back from this file.
    pub playback: Option<String>,
    pub speed_test: bool,
}

impl Args {
    /// Where the inputs come from and go: recording and playback exclude
    /// each other.
    pub fn record_option(&self) -> (r: Result<RecordOption, Error>)
        ensures
            (self.record is Some && self.playback is Some) ==> r == Err::<RecordOption, Error>(Error::ConflictingRecordOptions),
            (self.record is Some && self.playback is None) ==> (r matches Ok(RecordOption::Record(g)) && g@ == self.record.unwrap()@),
            (self.record is None && self.playback is Some) ==> (r matches Ok(RecordOption::Playback(g)) && g@ == self.playback.unwrap()@),
            (self.record is None && self.playback is None) ==> (r matches Ok(RecordOption::Off)),
    {
        if self.record.is_some() && self.playback.is_some() {
            return Err(Error::ConflictingRecordOptions);
        }
        if let Some(record) = &self.record {
            Ok(RecordOption::Record(record.clone()))
        } else if let Some(playback) = &self.playback {
            Ok(RecordOption::Playback(playback.clone()))
        } else {
            Ok(RecordOption::Off)
        }
    }
}

} // verus!
