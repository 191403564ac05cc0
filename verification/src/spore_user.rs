//! The user collection driver's verified part: the subject, its feed URL,
//! and where its downloads land.

use vstd::prelude::*;
use vstd::string::StringExecFns;
use crate::spore_server::{asset_type_from_mime, spec_asset_type_from_mime, AssetType, SporeServer};

verus! {

/// A user whose published items are to be discovered and downloaded.
pub struct SporeUser {
    pub user_name: String,
}

impl SporeUser {
    /// A driver for the given user.
    pub fn new(user_name: String) -> (r: SporeUser)
        ensures
            r.user_name == user_name,
    {
        SporeUser { user_name }
    }

    /// The Atom feed URL listing this user's published items.
    pub fn feed_url(&self, server: &SporeServer) -> (r: String)
        ensures
            r@ == server.endpoint@ + "/atom/assets/user/"@ + self.user_name@,
    {
        server.user_feed_url(self.user_name.as_str())
    }

    /// The directory this user's downloads land in: a user-named
    /// subdirectory of the base output directory.
    pub fn output_dir(&self, base_path: &str) -> (r: String)
        ensures
            r@ == base_path@ + "/"@ + self.user_name@,
    {
        let mut dir = String::from_str(base_path);
        dir.append("/");
        dir.append(self.user_name.as_str());
        dir
    }

    /// Maps a declared media type to its content kind.
    pub fn asset_type_from_mime(mime: &str) -> (r: AssetType)
        ensures
            r == spec_asset_type_from_mime(mime@),
    {
        asset_type_from_mime(mime)
    }
}

} // verus!
