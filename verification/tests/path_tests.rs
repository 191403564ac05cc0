use spore_downloader::error::SporeError;
use spore_downloader::spore_server::{asset_dir, asset_file_path, AssetType, SporeServer};
use spore_downloader::spore_user::SporeUser;
use spore_downloader::sporecast::Sporecast;

#[test]
fn separated_downloads_land_in_kind_subdirectories() {
    let creature_dir = asset_dir("output", true, AssetType::Creature);
    assert_eq!(asset_file_path(&creature_dir, 42), "output/creatures/42.png");
    let unknown_dir = asset_dir("output", true, AssetType::Unknown);
    assert_eq!(asset_file_path(&unknown_dir, 43), "output/unknown/43.png");
}

#[test]
fn flat_downloads_land_in_the_destination_itself() {
    let dir = asset_dir("output", false, AssetType::Creature);
    assert_eq!(asset_file_path(&dir, 42), "output/42.png");
    let dir = asset_dir("output", false, AssetType::Unknown);
    assert_eq!(asset_file_path(&dir, 43), "output/43.png");
}

#[test]
fn kind_directory_names_are_fixed() {
    assert_eq!(AssetType::Creature.dir_name(), "creatures");
    assert_eq!(AssetType::Vehicle.dir_name(), "vehicles");
    assert_eq!(AssetType::Building.dir_name(), "buildings");
    assert_eq!(AssetType::Ufo.dir_name(), "ufo");
    assert_eq!(AssetType::Adventure.dir_name(), "adventures");
    assert_eq!(AssetType::Unknown.dir_name(), "unknown");
}

#[test]
fn user_feed_url_names_the_user() {
    let server = SporeServer::new();
    let user = SporeUser::new(String::from("somebody"));
    assert_eq!(user.feed_url(&server), "http://www.spore.com/atom/assets/user/somebody");
    assert_eq!(server.user_feed_url("somebody"), "http://www.spore.com/atom/assets/user/somebody");
}

#[test]
fn sporecast_feed_url_names_the_collection() {
    let server = SporeServer::new();
    let cast = Sporecast::new(500123456789);
    assert_eq!(cast.feed_url(&server), "http://www.spore.com/atom/sporecast/500123456789");
    assert_eq!(
        server.sporecast_feed_url(500123456789),
        "http://www.spore.com/atom/sporecast/500123456789"
    );
}

#[test]
fn user_downloads_land_in_a_user_named_subdirectory() {
    let user = SporeUser::new(String::from("somebody"));
    assert_eq!(user.output_dir("spore_assets/users"), "spore_assets/users/somebody");
}

#[test]
fn both_drivers_map_media_types_alike() {
    assert_eq!(
        SporeUser::asset_type_from_mime("application/x-building+xml"),
        AssetType::Building
    );
    assert_eq!(
        Sporecast::asset_type_from_mime("application/x-building+xml"),
        AssetType::Building
    );
    assert_eq!(SporeUser::asset_type_from_mime("application/x-other+xml"), AssetType::Unknown);
    assert_eq!(Sporecast::asset_type_from_mime("text/plain"), AssetType::Unknown);
}

#[test]
fn errors_carry_a_message() {
    assert_eq!(SporeError::IdentifierTooShort.message(), "an asset identifier is too short");
    assert!(!SporeError::ParseError.message().is_empty());
    assert!(!SporeError::FetchError.message().is_empty());
    assert!(!SporeError::DirectoryCreationError.message().is_empty());
}
