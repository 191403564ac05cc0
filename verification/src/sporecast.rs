//! The named-collection ("sporecast") driver's verified part: the subject
//! and its feed URL. A sporecast's downloads land flat in the given output
//! directory.

use vstd::prelude::*;
use crate::digits::spec_int_string;
use crate::spore_server::{asset_type_from_mime, spec_asset_type_from_mime, AssetType, SporeServer};

verus! {

/// A named collection whose items are to be discovered and downloaded.
pub struct Sporecast {
    pub id: i64,
}

impl Sporecast {
    /// A driver for the given collection.
    pub fn new(id: i64) -> (r: Sporecast)
        ensures
            r.id == id,
    {
        Sporecast { id }
    }

    /// The Atom feed URL listing this collection's items.
    pub fn feed_url(&self, server: &SporeServer) -> (r: String)
        ensures
            r@ == server.endpoint@ + "/atom/sporecast/"@ + spec_int_string(self.id as int),
    {
        server.sporecast_feed_url(self.id)
    }

    /// Maps a declared media type to its content kind.
    pub fn asset_type_from_mime(mime: &str) -> (r: AssetType)
        ensures
            r == spec_asset_type_from_mime(mime@),
    {
        asset_type_from_mime(mime)
    }
}

} // verus!
