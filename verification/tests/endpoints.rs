use modpacks::pack::manifest_url;
use modpacks::pack::pack_info_url;
use modpacks::pack::search_url;
use modpacks::pack::getFTBServerURL;
use modpacks::pack::getInstallerName;
use modpacks::pack::ListKind;
use modpacks::permissions::owner_executable_mode;
use modpacks::server::fabric_installer_url;
use modpacks::server::fabric_latest_installer_url;
use modpacks::server::fabric_maven_url;
use modpacks::server::forge_installer_url;
use modpacks::server::split_loader;
use modpacks::versions::format_versions;
use modpacks::versions::latest_version;
use modpacks::PackError;
use modpacks::PackType;
use modpacks::Platform;

#[test]
fn source_urls_and_names() {
    assert_eq!(PackType::CF.url(), "https://api.modpacks.ch/public/curseforge/");
    assert_eq!(PackType::FTB.url(), "https://api.modpacks.ch/public/modpack/");
    assert_eq!(PackType::CF.name(), "Curseforge");
    assert_eq!(PackType::FTB.name(), "FTB");
}

#[test]
fn server_installer_urls_per_platform() {
    let id = "95".to_string();
    let version = "2165".to_string();
    assert_eq!(
        getFTBServerURL(&id, &version, Platform::LinuxX64),
        "https://api.modpacks.ch/public/modpack/95/2165/server/linux"
    );
    assert_eq!(
        getFTBServerURL(&id, &version, Platform::WindowsX64),
        "https://api.modpacks.ch/public/modpack/95/2165/server/windows"
    );
    assert_eq!(
        getFTBServerURL(&id, &version, Platform::LinuxArm),
        "https://api.modpacks.ch/public/modpack/95/2165/server/arm/linux"
    );
    assert_eq!(
        getFTBServerURL(&id, &version, Platform::MacArm),
        "https://api.modpacks.ch/public/modpack/95/2165/server/arm/mac"
    );
    assert_eq!(
        getFTBServerURL(&id, &version, Platform::MacX64),
        "https://api.modpacks.ch/public/modpack/95/2165/server/mac"
    );
}

#[test]
fn installer_names_per_platform() {
    assert_eq!(getInstallerName("./95/".to_string(), false), "./95/installer");
    assert_eq!(getInstallerName("./95/".to_string(), true), "./95/installer.exe");
}

#[test]
fn endpoint_urls() {
    assert_eq!(
        manifest_url(PackType::FTB, "95", "2165"),
        "https://api.modpacks.ch/public/modpack/95/2165"
    );
    assert_eq!(
        pack_info_url(PackType::CF, "715572"),
        "https://api.modpacks.ch/public/curseforge/715572"
    );
    assert_eq!(
        search_url("skyblock"),
        "https://api.modpacks.ch/public/modpack/search/5?term=skyblock"
    );
    assert_eq!(ListKind::Recent.list_url(), "https://api.modpacks.ch/public/modpack/updated/10");
    assert_eq!(
        ListKind::Featured.list_url(),
        "https://api.modpacks.ch/public/modpack/featured/10"
    );
    assert_eq!(
        ListKind::MostPlayed.list_url(),
        "https://api.modpacks.ch/public/modpack/popular/plays/10"
    );
    assert_eq!(
        ListKind::MostInstalled.list_url(),
        "https://api.modpacks.ch/public/modpack/popular/installs/10"
    );
}

#[test]
fn newest_version_per_source_ordering() {
    let ids = vec!["100".to_string(), "200".to_string(), "300".to_string()];
    assert_eq!(latest_version(&ids, PackType::FTB), Some("300".to_string()));
    assert_eq!(latest_version(&ids, PackType::CF), Some("100".to_string()));
    assert_eq!(latest_version(&Vec::new(), PackType::FTB), None);
}

fn pairs(entries: &[(&str, &str)]) -> Vec<(String, String)> {
    entries.iter().map(|(a, b)| (a.to_string(), b.to_string())).collect()
}

#[test]
fn version_listing_shows_newest_three() {
    let vs = pairs(&[("1", "one"), ("2", "two"), ("3", "three"), ("4", "four"), ("5", "five")]);
    // FTB lists oldest first: the newest three are the last three, reversed
    assert_eq!(format_versions(&vs, PackType::FTB), "5: five\n4: four\n3: three");
    assert_eq!(format_versions(&vs, PackType::CF), "1: one\n2: two\n3: three");
}

#[test]
fn version_listing_of_short_lists() {
    assert_eq!(format_versions(&pairs(&[("7", "seven")]), PackType::CF), "7: seven");
    assert_eq!(format_versions(&pairs(&[("1", "a"), ("2", "b")]), PackType::CF), "1: a\n2: b");
    assert_eq!(format_versions(&Vec::new(), PackType::FTB), "");
}

#[test]
fn loader_ids_split_at_dashes() {
    assert_eq!(
        split_loader("forge-14.23.5.2860"),
        Some(("forge".to_string(), "14.23.5.2860".to_string()))
    );
    assert_eq!(
        split_loader("fabric-0.11.2-extra"),
        Some(("fabric".to_string(), "0.11.2".to_string()))
    );
    assert_eq!(split_loader("quilt"), None);
}

#[test]
fn installer_urls() {
    assert_eq!(
        forge_installer_url("1.12.2", "14.23.5.2860"),
        "https://maven.minecraftforge.net/net/minecraftforge/forge/1.12.2-14.23.5.2860/forge-1.12.2-14.23.5.2860-installer.jar"
    );
    assert_eq!(
        fabric_installer_url("0.11.2"),
        "https://maven.fabricmc.net/net/fabricmc/fabric-installer/0.11.2/fabric-installer-0.11.2.jar"
    );
    assert_eq!(
        fabric_maven_url(),
        "https://maven.fabricmc.net/net/fabricmc/fabric-installer/maven-metadata.xml"
    );
}

#[test]
fn fabric_release_is_read_from_maven_metadata() {
    let meta = "<metadata><versioning><latest>0.11.2</latest><release>0.11.1</release>\
                </versioning></metadata>";
    assert_eq!(
        fabric_latest_installer_url(meta).unwrap(),
        "https://maven.fabricmc.net/net/fabricmc/fabric-installer/0.11.1/fabric-installer-0.11.1.jar"
    );
    assert!(matches!(
        fabric_latest_installer_url("<metadata></metadata>"),
        Err(PackError::Decode(_))
    ));
    assert!(matches!(fabric_latest_installer_url("not xml"), Err(PackError::Decode(_))));
}

#[test]
fn owner_execute_bit_is_set_on_the_fourth_octal_digit() {
    assert_eq!(owner_executable_mode(0o100644), 0o100744);
    assert_eq!(owner_executable_mode(0o100755), 0o100755);
    assert_eq!(owner_executable_mode(0o120000), 0o120700);
    assert_eq!(owner_executable_mode(0o7777), 0o7777);
}

#[test]
fn error_messages() {
    let e = PackError::HashMismatch {
        expected: "aa".to_string(),
        found: "bb".to_string(),
    };
    assert_eq!(e.message(), "Mismatched hashes, expected: aa found: bb");
    assert_eq!(
        PackError::InvalidArchiveEntry("../x".to_string()).message(),
        "Invalid component: ../x"
    );
    assert_eq!(PackError::Network("down".to_string()).message(), "down");
    assert_eq!(PackError::Decode("bad".to_string()).message(), "bad");
    assert_eq!(PackError::Io("full".to_string()).message(), "full");
    assert_eq!(PackError::Extraction("torn".to_string()).message(), "torn");
}
