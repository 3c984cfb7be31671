//! Warp zones: areas that send the player to another level.
use vstd::prelude::*;
use vstd::std_specs::convert::FromSpec;

use crate::error::Error;
use crate::geometry::{Rect, Subpixels};
use crate::properties::opt_text;
use crate::tilemap::MapObject;

verus! {

/// An area that sends the player to the level named by its destination.
pub struct Warp {
    pub position: Rect<Subpixels>,
    pub destination: String,
}

/// Whether `w` is the warp zone that object `o` describes: its area, and
/// its destination.
pub open spec fn warp_made(w: Warp, o: MapObject) -> bool {
    &&& Some(w.destination@) == opt_text(o.properties.warp)
    &&& w.position == Rect::<Subpixels>::from_spec(o.position)
}

impl Warp {
    /// The warp zone that a map object describes; it needs a destination.
    pub fn new(obj: &MapObject) -> (r: Result<Warp, Error>)
        ensures
            obj.properties.warp is None ==> r == Err::<Warp, Error>(Error::MissingWarpDestination),
            obj.properties.warp is Some ==> (r matches Ok(w) && warp_made(w, *obj)),
    {
        let destination = match &obj.properties.warp {
            Some(d) => d.clone(),
            None => {
                return Err(Error::MissingWarpDestination);
            },
        };
        Ok(Warp { position: Rect::<Subpixels>::from(obj.position), destination })
    }

    /// Whether the player's rectangle is in the zone.
    pub fn is_inside(&self, player_rect: Rect<Subpixels>) -> (r: bool)
        requires
            self.position.edges_fit(),
            player_rect.edges_fit(),
        ensures
            r == player_rect.spec_intersects(self.position),
    {
        player_rect.intersects(self.position)
    }
}

} // verus!
