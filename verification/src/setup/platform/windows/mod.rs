//! The Windows installer: what was found, what was chosen, its command line, plan and text.

pub mod args;
pub mod plan;
pub mod report;

use crate::text;
use vstd::prelude::*;

verus! {

/// The management port next to another streaming host.
pub const MGMT_PORT_MOVED: u16 = 47991;

/// Which payload an installer carries.
#[derive(Clone, Copy, Debug, PartialEq, Eq, Structural)]
pub enum Artifact {
    Host,
    Client,
}

/// A scheduled task.
#[derive(Clone, Copy, Debug, PartialEq, Eq, Structural)]
pub enum TaskState {
    Absent,
    Enabled,
    Disabled,
}

/// An install that is already here.
pub struct Installed {
    pub version: Option<String>,
    pub location: Option<String>,
}

/// A network the box is on.
pub struct NetworkInfo {
    pub name: String,
    pub is_public: bool,
}

/// What was found on the box.
pub struct WinFacts {
    pub os_build: u32,
    pub arch: String,
    pub installed: Option<Installed>,
    pub client_installed: Option<Installed>,
    pub inno_uninstaller: bool,
    pub web_password_present: bool,
    pub scripting_task: TaskState,
    pub web_task: TaskState,
    pub tray_autostart: bool,
    pub vulkan_layer_registered: bool,
    pub competing_hosts: Vec<String>,
    pub mgmt_bind_set: bool,
    pub networks: Vec<NetworkInfo>,
}

/// The names of the public networks among the first `n`, in order.
pub open spec fn public_names(v: Seq<NetworkInfo>, n: int) -> Seq<Seq<char>>
    decreases n,
{
    if n <= 0 {
        Seq::empty()
    } else if v[n - 1].is_public {
        public_names(v, n - 1).push(v[n - 1].name@)
    } else {
        public_names(v, n - 1)
    }
}

impl WinFacts {
    /// Another streaming host runs here, and the operator has not moved the port already.
    pub open spec fn coexists(self) -> bool {
        self.competing_hosts@.len() > 0 && !self.mgmt_bind_set
    }

    pub fn needs_coexistence(&self) -> (r: bool)
        ensures
            r == self.coexists(),
    {
        self.competing_hosts.len() > 0 && !self.mgmt_bind_set
    }

    pub open spec fn public(self) -> Seq<Seq<char>> {
        public_names(self.networks@, self.networks@.len() as int)
    }

    /// The names of the public networks.
    pub fn public_networks(&self) -> (v: Vec<String>)
        ensures
            text::contents(v@) == self.public(),
    {
        let mut out: Vec<String> = text::no_texts();
        let mut i: usize = 0;
        while i < self.networks.len()
            invariant
                i <= self.networks@.len(),
                text::contents(out@) == public_names(self.networks@, i as int),
            decreases self.networks@.len() - i,
        {
            if self.networks[i].is_public {
                out = text::with_text(out, self.networks[i].name.as_str());
            }
            i = i + 1;
        }
        out
    }

    /// The install an artifact would replace.
    pub open spec fn install_for(self, artifact: Artifact) -> Option<Installed> {
        match artifact {
            Artifact::Host => self.installed,
            Artifact::Client => self.client_installed,
        }
    }

    pub fn installed_for(&self, artifact: Artifact) -> (r: &Option<Installed>)
        ensures
            *r == self.install_for(artifact),
    {
        match artifact {
            Artifact::Host => &self.installed,
            Artifact::Client => &self.client_installed,
        }
    }
}

/// What to do about a public network.
pub enum NetworkAnswer {
    MakePrivate(String),
    OpenPublicRules,
    Skip,
}

/// What was chosen.
pub struct WinChoices {
    pub dir: Option<String>,
    pub install_driver: bool,
    pub install_gamepad: bool,
    pub install_hdr_layer: bool,
    /// Unset keeps what the box has.
    pub gamestream: Option<bool>,
    /// Unset keeps what the box has.
    pub allow_public_fw: Option<bool>,
    pub start_service: bool,
    pub tray_autostart: bool,
    pub desktop_icon: bool,
    /// Unset leaves the console's bind as it is.
    pub web_bind: Option<String>,
    pub network: NetworkAnswer,
    pub web_password: Option<String>,
}

/// A name is among the public ones exactly where a public network bears it.
proof fn lemma_public(v: Seq<NetworkInfo>, n: int, name: Seq<char>)
    requires
        0 <= n <= v.len(),
    ensures
        public_names(v, n).contains(name) <==> exists|i: int|
            0 <= i < n && (#[trigger] v[i]).is_public && v[i].name@ == name,
        public_names(v, n).len() <= n,
    decreases n,
{
    if n > 0 {
        lemma_public(v, n - 1, name);
        let before = public_names(v, n - 1);
        let now = public_names(v, n);
        if v[n - 1].is_public {
            if before.contains(name) {
                let k = choose|k: int| 0 <= k < before.len() && before[k] == name;
                assert(now[k] == name);
            }
            if v[n - 1].name@ == name {
                assert(now[before.len() as int] == name);
            }
            if now.contains(name) {
                let k = choose|k: int| 0 <= k < now.len() && now[k] == name;
                if k < before.len() {
                    assert(before[k] == name);
                }
            }
        }
    }
}

proof fn lemma_public_front(v: Seq<NetworkInfo>, w: Seq<NetworkInfo>, n: int)
    requires
        0 <= n <= v.len(),
        n <= w.len(),
        forall|i: int| 0 <= i < n ==> #[trigger] v[i] == w[i],
    ensures
        public_names(v, n) == public_names(w, n),
    decreases n,
{
    if n > 0 {
        lemma_public_front(v, w, n - 1);
        assert(v[n - 1] == w[n - 1]);
    }
}

/// A network is named exactly where it is public.
pub proof fn only_public_networks_are_named(facts: &WinFacts, v: Vec<String>, name: Seq<char>)
    requires
        call_ensures(WinFacts::public_networks, (facts,), v),
    ensures
        text::contents(v@).contains(name) <==> exists|i: int|
            0 <= i < facts.networks@.len() && (#[trigger] facts.networks@[i]).is_public
                && facts.networks@[i].name@ == name,
{
    lemma_public(facts.networks@, facts.networks@.len() as int, name);
}

/// One more network is named last where it is public, and not at all where it is private.
pub proof fn networks_are_named_in_order(
    facts: &WinFacts,
    v: Vec<String>,
    more: &WinFacts,
    w: Vec<String>,
    n: NetworkInfo,
)
    requires
        call_ensures(WinFacts::public_networks, (facts,), v),
        call_ensures(WinFacts::public_networks, (more,), w),
        more.networks@ == facts.networks@.push(n),
    ensures
        n.is_public ==> text::contents(w@) == text::contents(v@).push(n.name@),
        !n.is_public ==> text::contents(w@) == text::contents(v@),
        facts.networks@.len() == 0 ==> v@.len() == 0,
{
    let k = facts.networks@.len() as int;
    lemma_public_front(facts.networks@, more.networks@, k);
    assert(more.networks@[k] == n);
    assert(text::contents(v@).len() == v@.len());
}

/// There is a public network exactly where one is named.
pub proof fn lemma_somewhere_public(facts: WinFacts)
    ensures
        facts.public().len() > 0 <==> exists|i: int|
            0 <= i < facts.networks@.len() && (#[trigger] facts.networks@[i]).is_public,
{
    let k = facts.networks@.len() as int;
    if facts.public().len() > 0 {
        lemma_public(facts.networks@, k, facts.public()[0]);
        assert(facts.public().contains(facts.public()[0]));
    }
    if exists|i: int| 0 <= i < k && (#[trigger] facts.networks@[i]).is_public {
        let i = choose|i: int| 0 <= i < k && (#[trigger] facts.networks@[i]).is_public;
        lemma_public(facts.networks@, k, facts.networks@[i].name@);
    }
}

/// A box needs to make room where another host is and nobody has moved the port; each installer
/// looks at its own install, and the port it moves to is 47991.
pub proof fn each_installer_looks_at_its_own(
    facts: &WinFacts,
    r: bool,
    host: &Option<Installed>,
    client: &Option<Installed>,
)
    requires
        call_ensures(WinFacts::needs_coexistence, (facts,), r),
        call_ensures(WinFacts::installed_for, (facts, Artifact::Host), host),
        call_ensures(WinFacts::installed_for, (facts, Artifact::Client), client),
    ensures
        r ==> facts.competing_hosts@.len() != 0,
        r ==> !facts.mgmt_bind_set,
        !r ==> facts.competing_hosts@.len() == 0 || facts.mgmt_bind_set,
        *host == facts.installed,
        *client == facts.client_installed,
        MGMT_PORT_MOVED == 47991,
{
}

} // verus!
