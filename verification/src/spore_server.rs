//! The catalog service model: content items, their classification, and the
//! URLs and filesystem paths derived for them.

use vstd::prelude::*;
use vstd::string::StrSliceExecFns;
use vstd::string::StringExecFns;
use crate::digits::{i64_to_string, spec_int_string};
use crate::error::SporeError;
use crate::text::str_eq;

verus! {

/// One discovered content item: its numeric identifier and its classified
/// content kind.
#[derive(Clone, Copy, Debug, PartialEq, Eq, Structural)]
pub struct Asset {
    pub id: i64,
    pub asset_type: AssetType,
}

/// The closed set of content kinds a feed entry can declare.
#[derive(Clone, Copy, Debug, PartialEq, Eq, Structural)]
pub enum AssetType {
    Creature,
    Vehicle,
    Building,
    Ufo,
    Adventure,
    Unknown,
}

/// The directory name of each content kind, used when downloads are
/// separated by type.
pub open spec fn spec_dir_name(t: AssetType) -> Seq<char> {
    match t {
        AssetType::Creature => "creatures"@,
        AssetType::Vehicle => "vehicles"@,
        AssetType::Building => "buildings"@,
        AssetType::Ufo => "ufo"@,
        AssetType::Adventure => "adventures"@,
        AssetType::Unknown => "unknown"@,
    }
}

/// The fixed mapping from a declared media type to a content kind; any
/// unmapped type is `Unknown`.
pub open spec fn spec_asset_type_from_mime(mime: Seq<char>) -> AssetType {
    if mime == "application/x-creature+xml"@ {
        AssetType::Creature
    } else if mime == "application/x-vehicle+xml"@ {
        AssetType::Vehicle
    } else if mime == "application/x-building+xml"@ {
        AssetType::Building
    } else if mime == "application/x-ufo+xml"@ {
        AssetType::Ufo
    } else if mime == "application/x-adventure+xml"@ {
        AssetType::Adventure
    } else {
        AssetType::Unknown
    }
}

/// Maps a declared media type to its content kind.
pub fn asset_type_from_mime(mime: &str) -> (r: AssetType)
    ensures
        r == spec_asset_type_from_mime(mime@),
{
    if str_eq(mime, "application/x-creature+xml") {
        AssetType::Creature
    } else if str_eq(mime, "application/x-vehicle+xml") {
        AssetType::Vehicle
    } else if str_eq(mime, "application/x-building+xml") {
        AssetType::Building
    } else if str_eq(mime, "application/x-ufo+xml") {
        AssetType::Ufo
    } else if str_eq(mime, "application/x-adventure+xml") {
        AssetType::Adventure
    } else {
        AssetType::Unknown
    }
}

impl AssetType {
    /// The subdirectory this kind's items are stored in when downloads are
    /// separated by type.
    pub fn dir_name(&self) -> (r: &'static str)
        ensures
            r@ == spec_dir_name(*self),
    {
        match self {
            AssetType::Creature => "creatures",
            AssetType::Vehicle => "vehicles",
            AssetType::Building => "buildings",
            AssetType::Ufo => "ufo",
            AssetType::Adventure => "adventures",
            AssetType::Unknown => "unknown",
        }
    }
}

/// The remote catalog service: the endpoint that feed and artifact URLs are
/// derived from. Fetching those URLs is the caller's work.
pub struct SporeServer {
    pub endpoint: String,
}

/// The endpoint every new `SporeServer` points at.
pub open spec fn spec_default_endpoint() -> Seq<char> {
    "http://www.spore.com"@
}

/// The sharded artifact URL for `asset_id`: the first nine characters of the
/// decimal identifier, in three groups of three, select the storage path.
pub open spec fn spec_asset_png_url(endpoint: Seq<char>, asset_id: i64) -> Seq<char> {
    let s = spec_int_string(asset_id as int);
    endpoint + "/static/thumb/"@ + s.subrange(0, 3) + "/"@ + s.subrange(3, 6) + "/"@ + s.subrange(
        6,
        9,
    ) + "/"@ + s + ".png"@
}

impl SporeServer {
    /// A handle on the public spore.com endpoint.
    pub fn new() -> (r: SporeServer)
        ensures
            r.endpoint@ == spec_default_endpoint(),
    {
        SporeServer { endpoint: String::from_str("http://www.spore.com") }
    }

    /// The Atom feed URL listing a user's published items.
    pub fn user_feed_url(&self, username: &str) -> (r: String)
        ensures
            r@ == self.endpoint@ + "/atom/assets/user/"@ + username@,
    {
        let mut url = self.endpoint.clone();
        url.append("/atom/assets/user/");
        url.append(username);
        url
    }

    /// The Atom feed URL listing a named collection's items.
    pub fn sporecast_feed_url(&self, sporecast_id: i64) -> (r: String)
        ensures
            r@ == self.endpoint@ + "/atom/sporecast/"@ + spec_int_string(sporecast_id as int),
    {
        let mut url = self.endpoint.clone();
        url.append("/atom/sporecast/");
        let id = i64_to_string(sporecast_id);
        url.append(id.as_str());
        url
    }

    /// The download URL of an item's image artifact. An identifier whose
    /// decimal form is shorter than nine characters cannot be sharded and is
    /// rejected, never padded or truncated.
    pub fn asset_png_url(&self, asset_id: i64) -> (r: Result<String, SporeError>)
        ensures
            spec_int_string(asset_id as int).len() >= 9 ==> (r matches Ok(u) && u@
                == spec_asset_png_url(self.endpoint@, asset_id)),
            spec_int_string(asset_id as int).len() < 9 ==> r == Err::<String, SporeError>(
                SporeError::IdentifierTooShort,
            ),
    {
        let id = i64_to_string(asset_id);
        let s = id.as_str();
        if s.unicode_len() < 9 {
            return Err(SporeError::IdentifierTooShort);
        }
        let mut url = self.endpoint.clone();
        url.append("/static/thumb/");
        url.append(s.substring_char(0, 3));
        url.append("/");
        url.append(s.substring_char(3, 6));
        url.append("/");
        url.append(s.substring_char(6, 9));
        url.append("/");
        url.append(s);
        url.append(".png");
        Ok(url)
    }
}

/// The directory an item is stored in: the destination itself, or a
/// kind-named subdirectory of it when downloads are separated by type.
pub open spec fn spec_asset_dir(dest: Seq<char>, separate_by_type: bool, t: AssetType) -> Seq<
    char,
> {
    if separate_by_type {
        dest + "/"@ + spec_dir_name(t)
    } else {
        dest
    }
}

/// Derives the directory an item of kind `t` is stored in.
pub fn asset_dir(dest: &str, separate_by_type: bool, t: AssetType) -> (r: String)
    ensures
        r@ == spec_asset_dir(dest@, separate_by_type, t),
{
    let mut dir = String::from_str(dest);
    if separate_by_type {
        dir.append("/");
        dir.append(t.dir_name());
    }
    dir
}

/// The file an item's artifact is stored at: `<dir>/<identifier>.png`.
pub open spec fn spec_asset_file_path(dir: Seq<char>, asset_id: i64) -> Seq<char> {
    dir + "/"@ + spec_int_string(asset_id as int) + ".png"@
}

/// Derives the file path an item's artifact is stored at.
pub fn asset_file_path(dir: &str, asset_id: i64) -> (r: String)
    ensures
        r@ == spec_asset_file_path(dir@, asset_id),
{
    let mut path = String::from_str(dir);
    path.append("/");
    let id = i64_to_string(asset_id);
    path.append(id.as_str());
    path.append(".png");
    path
}

} // verus!
