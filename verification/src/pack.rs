//! Package sources and their API endpoints.

use vstd::prelude::*;

verus! {

/// The two supported package sources.
#[derive(PartialEq, Eq, Structural, Clone, Copy, Debug)]
pub enum PackType {
    CF,
    FTB,
}

impl PackType {
    /// The base URL of this source's manifest API.
    pub open spec fn spec_url(&self) -> Seq<char> {
        match self {
            PackType::CF => "https://api.modpacks.ch/public/curseforge/"@,
            PackType::FTB => "https://api.modpacks.ch/public/modpack/"@,
        }
    }

    pub fn url(&self) -> (r: &str)
        ensures
            r@ == self.spec_url(),
    {
        match self {
            PackType::CF => "https://api.modpacks.ch/public/curseforge/",
            PackType::FTB => "https://api.modpacks.ch/public/modpack/",
        }
    }

    /// The source's human-readable name.
    pub open spec fn spec_name(&self) -> Seq<char> {
        match self {
            PackType::CF => "Curseforge"@,
            PackType::FTB => "FTB"@,
        }
    }

    pub fn name(&self) -> (r: &str)
        ensures
            r@ == self.spec_name(),
    {
        match self {
            PackType::CF => "Curseforge",
            PackType::FTB => "FTB",
        }
    }
}

/// The platforms the FTB server installer is published for. Which one a host
/// needs is the caller's concern.
#[derive(PartialEq, Eq, Structural, Clone, Copy, Debug)]
pub enum Platform {
    LinuxX64,
    WindowsX64,
    LinuxArm,
    MacArm,
    MacX64,
}

impl Platform {
    /// The platform's path suffix on the server-installer endpoint.
    pub open spec fn spec_server_suffix(&self) -> Seq<char> {
        match self {
            Platform::LinuxX64 => "server/linux"@,
            Platform::WindowsX64 => "server/windows"@,
            Platform::LinuxArm => "server/arm/linux"@,
            Platform::MacArm => "server/arm/mac"@,
            Platform::MacX64 => "server/mac"@,
        }
    }

    pub fn server_suffix(&self) -> (r: &str)
        ensures
            r@ == self.spec_server_suffix(),
    {
        match self {
            Platform::LinuxX64 => "server/linux",
            Platform::WindowsX64 => "server/windows",
            Platform::LinuxArm => "server/arm/linux",
            Platform::MacArm => "server/arm/mac",
            Platform::MacX64 => "server/mac",
        }
    }
}

/// The FTB server installer URL for one pack version on one platform.
pub open spec fn spec_ftb_server_url(id: Seq<char>, version: Seq<char>, platform: Platform) -> Seq<
    char,
> {
    "https://api.modpacks.ch/public/modpack/"@ + id + "/"@ + version + "/"@
        + platform.spec_server_suffix()
}

#[allow(non_snake_case)]
pub fn getFTBServerURL(id: &String, version: &String, platform: Platform) -> (r: String)
    ensures
        r@ == spec_ftb_server_url(id@, version@, platform),
{
    let mut s = String::new();
    s.append("https://api.modpacks.ch/public/modpack/");
    s.append(id.as_str());
    s.append("/");
    s.append(version.as_str());
    s.append("/");
    s.append(platform.server_suffix());
    s
}

/// The server installer's file name under its base path; Windows keeps an
/// executable extension so the user can run it again later.
pub open spec fn spec_installer_name(base: Seq<char>, windows: bool) -> Seq<char> {
    if windows {
        base + "installer.exe"@
    } else {
        base + "installer"@
    }
}

#[allow(non_snake_case)]
pub fn getInstallerName(base: String, windows: bool) -> (r: String)
    ensures
        r@ == spec_installer_name(base@, windows),
{
    let mut s = base;
    if windows {
        s.append("installer.exe");
    } else {
        s.append("installer");
    }
    s
}

/// The manifest endpoint of one pack version: `<source>/<id>/<version>`.
pub open spec fn spec_manifest_url(
    pack_type: PackType,
    id: Seq<char>,
    version: Seq<char>,
) -> Seq<char> {
    pack_type.spec_url() + id + "/"@ + version
}

pub fn manifest_url(pack_type: PackType, id: &str, version: &str) -> (r: String)
    ensures
        r@ == spec_manifest_url(pack_type, id@, version@),
{
    let mut s = String::new();
    s.append(pack_type.url());
    s.append(id);
    s.append("/");
    s.append(version);
    s
}

/// The pack information endpoint: `<source>/<id>`.
pub open spec fn spec_pack_info_url(pack_type: PackType, id: Seq<char>) -> Seq<char> {
    pack_type.spec_url() + id
}

pub fn pack_info_url(pack_type: PackType, id: &str) -> (r: String)
    ensures
        r@ == spec_pack_info_url(pack_type, id@),
{
    let mut s = String::new();
    s.append(pack_type.url());
    s.append(id);
    s
}

/// The pack search endpoint for a term.
pub open spec fn spec_search_url(term: Seq<char>) -> Seq<char> {
    "https://api.modpacks.ch/public/modpack/search/5?term="@ + term
}

pub fn search_url(term: &str) -> (r: String)
    ensures
        r@ == spec_search_url(term@),
{
    let mut s = String::new();
    s.append("https://api.modpacks.ch/public/modpack/search/5?term=");
    s.append(term);
    s
}

/// The four browse listings of the FTB source.
#[derive(PartialEq, Eq, Structural, Clone, Copy, Debug)]
pub enum ListKind {
    Recent,
    Featured,
    MostPlayed,
    MostInstalled,
}

impl ListKind {
    /// The listing's endpoint (each returns up to ten packs).
    pub open spec fn spec_list_url(&self) -> Seq<char> {
        match self {
            ListKind::Recent => "https://api.modpacks.ch/public/modpack/updated/10"@,
            ListKind::Featured => "https://api.modpacks.ch/public/modpack/featured/10"@,
            ListKind::MostPlayed => "https://api.modpacks.ch/public/modpack/popular/plays/10"@,
            ListKind::MostInstalled => "https://api.modpacks.ch/public/modpack/popular/installs/10"@,
        }
    }

    pub fn list_url(&self) -> (r: &str)
        ensures
            r@ == self.spec_list_url(),
    {
        match self {
            ListKind::Recent => "https://api.modpacks.ch/public/modpack/updated/10",
            ListKind::Featured => "https://api.modpacks.ch/public/modpack/featured/10",
            ListKind::MostPlayed => "https://api.modpacks.ch/public/modpack/popular/plays/10",
            ListKind::MostInstalled => "https://api.modpacks.ch/public/modpack/popular/installs/10",
        }
    }
}

} // verus!
