//! What was found on the box.

use vstd::prelude::*;

verus! {

/// Where the documentation lives.
pub const DOCS: &'static str = "https://docs.punktfunk.unom.io/docs";

/// The client's flatpak.
pub const FLATPAK_APP: &'static str = "io.unom.Punktfunk";

/// A package channel.
#[derive(Clone, Copy, Debug, PartialEq, Eq, Structural)]
pub enum Channel {
    Stable,
    Canary,
}

impl Channel {
    pub open spec fn name(self) -> Seq<char> {
        match self {
            Channel::Stable => "stable"@,
            Channel::Canary => "canary"@,
        }
    }

    pub fn as_str(self) -> (s: &'static str)
        ensures
            s@ == self.name(),
    {
        match self {
            Channel::Stable => "stable",
            Channel::Canary => "canary",
        }
    }
}

/// How the box takes packages.
#[derive(Clone, Copy, Debug, PartialEq, Eq, Structural)]
pub enum Family {
    Apt,
    Dnf,
    Pacman,
    Sysext,
    Steamos,
    Flatpak,
}

impl Family {
    pub open spec fn name(self) -> Seq<char> {
        match self {
            Family::Apt => "apt"@,
            Family::Dnf => "dnf"@,
            Family::Pacman => "pacman"@,
            Family::Sysext => "sysext"@,
            Family::Steamos => "steamos"@,
            Family::Flatpak => "flatpak"@,
        }
    }

    pub fn as_str(self) -> (s: &'static str)
        ensures
            s@ == self.name(),
    {
        match self {
            Family::Apt => "apt",
            Family::Dnf => "dnf",
            Family::Pacman => "pacman",
            Family::Sysext => "sysext",
            Family::Steamos => "steamos",
            Family::Flatpak => "flatpak",
        }
    }

    /// The family's install brings the web console: every family that ships the host as a
    /// package.
    pub open spec fn brings_console(self) -> bool {
        self == Family::Apt || self == Family::Dnf || self == Family::Pacman || self
            == Family::Sysext
    }

    pub fn installs_console(self) -> (r: bool)
        ensures
            r == self.brings_console(),
    {
        self == Family::Apt || self == Family::Dnf || self == Family::Pacman || self
            == Family::Sysext
    }

    /// The family has a package for the client; the others take the flatpak.
    pub open spec fn packs_client(self) -> bool {
        self == Family::Apt || self == Family::Dnf || self == Family::Pacman
    }

    pub fn has_native_client(self) -> (r: bool)
        ensures
            r == self.packs_client(),
    {
        self == Family::Apt || self == Family::Dnf || self == Family::Pacman
    }
}

/// The state of the NVIDIA driver.
#[derive(Clone, Copy, Debug, PartialEq, Eq, Structural)]
pub enum Nvidia {
    Absent,
    NoDriver,
    ModuleNotLoaded,
    Works,
}

/// The active firewall.
#[derive(Clone, Copy, Debug, PartialEq, Eq, Structural)]
pub enum Firewall {
    Firewalld,
    Ufw,
    Absent,
}

/// The distribution, as it names itself.
pub struct OsRelease {
    pub id: String,
    pub id_like: String,
    pub version_id: String,
    pub pretty: String,
}

/// What was found on the box.
pub struct Facts {
    pub os: OsRelease,
    pub family: Family,
    pub omarchy: bool,
    pub docs_page: String,
    /// Why no host can be installed here.
    pub host_punt: Option<String>,
    pub has_flatpak_client: bool,
    /// The path of the rpm repo.
    pub rpm_group: Option<String>,
    pub floor: Option<String>,
    pub couch_box: bool,
    pub graphical_seat: bool,
    pub desktop_sessions: bool,
    pub sunshine_active: bool,
    /// The channel of the configured repo; unset without one.
    pub current_channel: Option<Channel>,
    /// Every installed package of ours.
    pub installed_pf: Vec<String>,
    /// What a complete host lacks here.
    pub missing: Vec<String>,
    pub host_version: Option<String>,
    pub has_web_server: bool,
    pub has_omarchy_bin: bool,
    pub has_ujust: bool,
    pub in_input_group: bool,
    pub in_punktfunk_group: bool,
    pub has_input_group: bool,
    pub nvidia: Nvidia,
    pub firewall: Firewall,
    pub systemd_pid1: bool,
    pub user_manager: bool,
    pub web_unit_present: bool,
    pub web_password_present: bool,
    pub web_bind: Option<String>,
    pub scripting_unit_disabled: bool,
    pub ip: Option<String>,
    pub user: String,
}

impl Facts {
    /// Host, console and plugin runner are all here.
    pub open spec fn is_complete(self) -> bool {
        self.missing@.len() == 0
    }

    pub fn fully_installed(&self) -> (r: bool)
        ensures
            r == self.is_complete(),
    {
        self.missing.len() == 0
    }
}

} // verus!
