//! What was chosen, by flags, by defaults or on the settings screen.

use crate::setup::facts::Channel;
use vstd::prelude::*;

verus! {

/// The console answers on this machine only.
pub const LOOPBACK_BIND: &'static str = "127.0.0.1";

/// The console answers on the local network.
pub const LAN_BIND: &'static str = "0.0.0.0";

/// What the run is for.
#[derive(Clone, Copy, Debug, PartialEq, Eq, Structural)]
pub enum Action {
    Install,
    Uninstall,
}

/// What to put on the box.
#[derive(Clone, Copy, Debug, PartialEq, Eq, Structural)]
pub struct Components {
    pub host: bool,
    pub client: bool,
}

/// What can be switched on and off.
#[derive(Clone, Copy, Debug, PartialEq, Eq, Structural)]
pub struct Toggles {
    pub punktfunk_group: bool,
    pub gamestream: bool,
    pub clipboard: bool,
    pub linger: bool,
    pub start: bool,
    pub omarchy_toasts: bool,
    pub omarchy_idle: bool,
    pub omarchy_theme: bool,
}

/// What was chosen.
pub struct Choices {
    pub action: Action,
    pub components: Components,
    pub channel: Channel,
    /// The channel the box leaves, when it switches.
    pub switch_from: Option<Channel>,
    pub toggles: Toggles,
    pub web_password: Option<String>,
    pub linger_why: Option<String>,
    pub omarchy_setup: bool,
    pub group_why: Option<String>,
    pub console_cert: bool,
    pub move_mgmt_port: bool,
    pub mgmt_port: u16,
    pub web_bind: String,
}

} // verus!
