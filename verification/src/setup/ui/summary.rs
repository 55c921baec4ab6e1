//! The settings list: rows, cursor and what a key does. No terminal.
//!
//! Every choice is visible at once; the first item installs. The plan is built anew from what was
//! found and chosen, so nothing has to be kept in step with it.

use crate::setup::choices::{Action, Choices, Components, Toggles};
use crate::setup::facts::{Channel, Facts, Family};
use crate::setup::plan;
use crate::setup::plan::Plan;
use crate::setup::platform::Catalogue;
use crate::text;
use vstd::prelude::*;
use vstd::string::StringExecFns;

verus! {

/// A row.
#[derive(Clone, Copy, Debug, PartialEq, Eq, Structural)]
pub enum Field {
    Components,
    Channel,
    Group,
    Gamestream,
    Clipboard,
    Linger,
    Start,
    OmarchyToasts,
    OmarchyIdle,
    OmarchyTheme,
}

/// What the cursor can stand on.
#[derive(Clone, Copy, Debug, PartialEq, Eq, Structural)]
pub enum Item {
    /// First, so that the first key installs.
    Go,
    Row(Field),
    Uninstall,
}

/// A key.
#[derive(Clone, Copy, Debug, PartialEq, Eq, Structural)]
pub enum Key {
    Up,
    Down,
    Enter,
    Cancel,
    /// Does not move the cursor.
    Ignored,
}

/// What a key led to.
#[derive(Clone, Copy, Debug, PartialEq, Eq, Structural)]
pub enum Step {
    Idle,
    /// A row is to be edited.
    Edit(Field),
    Run(Action),
    Cancel,
}

/// The settings list.
pub struct Screen {
    pub facts: Facts,
    pub choices: Choices,
    pub items: Vec<Item>,
    pub cursor: usize,
}

/// Items and one more when it applies.
pub open spec fn and_if(s: Seq<Item>, c: bool, x: Item) -> Seq<Item> {
    if c {
        s.push(x)
    } else {
        s
    }
}

/// The rows of a host. The on-device build owns groups, linger and start: those rows would be
/// switches nothing reads. Linger has a row only where it changes something.
pub open spec fn host_rows(s: Seq<Item>, facts: Facts) -> Seq<Item> {
    let deck = facts.family == Family::Steamos;
    let a = and_if(s, !deck, Item::Row(Field::Group)).push(Item::Row(Field::Gamestream)).push(
        Item::Row(Field::Clipboard),
    );
    let b = and_if(
        a,
        !deck && (!facts.graphical_seat || facts.couch_box),
        Item::Row(Field::Linger),
    );
    let c = and_if(b, !deck, Item::Row(Field::Start));
    if facts.omarchy {
        c.push(Item::Row(Field::OmarchyToasts)).push(Item::Row(Field::OmarchyIdle)).push(
            Item::Row(Field::OmarchyTheme),
        )
    } else {
        c
    }
}

/// The items of the list.
#[verifier::opaque]
pub open spec fn items_of(facts: Facts, host: bool) -> Seq<Item> {
    let a = and_if(
        Seq::<Item>::empty().push(Item::Go).push(Item::Row(Field::Components)),
        facts.family != Family::Steamos,
        Item::Row(Field::Channel),
    );
    let b = if host {
        host_rows(a, facts)
    } else {
        a
    };
    and_if(b, facts.is_complete(), Item::Uninstall)
}

fn items_for(facts: &Facts, host: bool) -> (items: Vec<Item>)
    ensures
        items@ == items_of(*facts, host),
{
    reveal(items_of);
    let deck: bool = facts.family == Family::Steamos;
    let mut items: Vec<Item> = Vec::new();
    items.push(Item::Go);
    items.push(Item::Row(Field::Components));
    if !deck {
        items.push(Item::Row(Field::Channel));
    }
    if host {
        if !deck {
            items.push(Item::Row(Field::Group));
        }
        items.push(Item::Row(Field::Gamestream));
        items.push(Item::Row(Field::Clipboard));
        if !deck && (!facts.graphical_seat || facts.couch_box) {
            items.push(Item::Row(Field::Linger));
        }
        if !deck {
            items.push(Item::Row(Field::Start));
        }
        if facts.omarchy {
            items.push(Item::Row(Field::OmarchyToasts));
            items.push(Item::Row(Field::OmarchyIdle));
            items.push(Item::Row(Field::OmarchyTheme));
        }
    }
    if facts.fully_installed() {
        items.push(Item::Uninstall);
    }
    items
}

/// What a row reads.
pub open spec fn yes_no(on: bool) -> Seq<char> {
    if on {
        "yes"@
    } else {
        "no"@
    }
}

fn yn(on: bool) -> (s: String)
    ensures
        s@ == yes_no(on),
{
    if on {
        "yes".to_owned()
    } else {
        "no".to_owned()
    }
}

/// The value of a row.
pub open spec fn value_of(c: Choices, field: Field) -> Seq<char> {
    match field {
        Field::Components => if c.components.host && c.components.client {
            "the host, plus the client app"@
        } else if c.components.client {
            "the device I play on (client)"@
        } else {
            "the PC I stream from (host)"@
        },
        Field::Channel => match c.switch_from {
            Some(from) => from.name() + " → "@ + c.channel.name(),
            None => c.channel.name(),
        },
        Field::Group => if c.toggles.punktfunk_group {
            match c.group_why {
                Some(why) => "yes — "@ + why@,
                None => "yes — joins the punktfunk group (grants usbip attach)"@,
            }
        } else {
            "no  — the pad arrives as a plain Xbox 360 controller"@
        },
        Field::Gamestream => if c.toggles.gamestream {
            "yes"@
        } else {
            "no  — punktfunk's own apps don't need it"@
        },
        Field::Clipboard => yes_no(c.toggles.clipboard),
        Field::Linger => if c.toggles.linger {
            match c.linger_why {
                Some(why) => "yes — "@ + why@,
                None => "yes"@,
            }
        } else {
            "no  — the host waits for your session"@
        },
        Field::Start => yes_no(c.toggles.start),
        Field::OmarchyToasts => yes_no(c.toggles.omarchy_toasts),
        Field::OmarchyIdle => yes_no(c.toggles.omarchy_idle),
        Field::OmarchyTheme => yes_no(c.toggles.omarchy_theme),
    }
}

/// The name of a row.
pub open spec fn label_of(field: Field) -> Seq<char> {
    match field {
        Field::Components => "This machine is"@,
        Field::Channel => "Channel"@,
        Field::Group => "Full controller support"@,
        Field::Gamestream => "Third-party clients"@,
        Field::Clipboard => "Shared clipboard"@,
        Field::Linger => "Start at boot"@,
        Field::Start => "Host service"@,
        Field::OmarchyToasts => "Desktop notifications"@,
        Field::OmarchyIdle => "Keep the screen awake"@,
        Field::OmarchyTheme => "Match the Omarchy theme"@,
    }
}

/// What a row's editor says.
pub open spec fn why_of(field: Field) -> Seq<char> {
    match field {
        Field::Components =>
            "Host: the PC you stream from. Client: the device you play on. One PC can be both."@,
        Field::Channel => "canary is the latest main build; stable is the released one."@,
        Field::Group =>
            "Joins the punktfunk group for paddles, trackpads and gyro. It grants usbip attach, so only on a machine you trust."@,
        Field::Gamestream =>
            "Serve Moonlight, Artemis, or another third-party client. Punktfunk's own apps don't need this."@,
        Field::Clipboard =>
            "Share the clipboard between this host and your clients. Each client still opts in per host."@,
        Field::Linger =>
            "Starts the host at boot so it is reachable before anyone logs in. It can only stream once a session exists."@,
        Field::Start =>
            "Enable and start the services once the install finishes. Off installs the files and starts nothing."@,
        Field::OmarchyToasts =>
            "A toast when a device asks to pair, and when a stream starts or stops."@,
        Field::OmarchyIdle => "Holds off the idle lock for as long as a stream is running."@,
        Field::OmarchyTheme =>
            "The console follows whatever theme Omarchy is on, instead of its own palette."@,
    }
}

/// A text filled up with blanks on its right.
pub open spec fn padded(s: Seq<char>, width: nat) -> Seq<char> {
    if s.len() < width {
        s + Seq::new((width - s.len()) as nat, |i: int| ' ')
    } else {
        s
    }
}

/// A character some times over.
pub open spec fn repeated(c: char, n: nat) -> Seq<char> {
    Seq::new(n, |i: int| c)
}

/// Repeats a character.
pub fn repeat(c: char, n: usize) -> (s: String)
    ensures
        s@ == repeated(c, n as nat),
{
    let mut s: String = String::new();
    let mut i: usize = 0;
    assert(s@ =~= repeated(c, 0));
    while i < n
        invariant
            i <= n,
            s@ == repeated(c, i as nat),
        decreases n - i,
    {
        s.push(c);
        i = i + 1;
        assert(s@ =~= repeated(c, i as nat));
    }
    s
}

/// Fills a text up with blanks on its right.
pub fn pad(s: &str, width: usize) -> (r: String)
    ensures
        r@ == padded(s@, width as nat),
{
    let n: usize = text::chars_of(s).len();
    if n < width {
        let blanks: String = repeat(' ', width - n);
        assert(blanks@ =~= Seq::new((width - s@.len()) as nat, |i: int| ' '));
        s.to_owned().concat(blanks.as_str())
    } else {
        s.to_owned()
    }
}

/// The rows among the first `n` items as they are shown.
pub open spec fn row_lines(items: Seq<Item>, c: Choices, n: int) -> Seq<Seq<char>>
    decreases n,
{
    if n <= 0 {
        Seq::empty()
    } else {
        let rest = row_lines(items, c, n - 1);
        match items[n - 1] {
            Item::Row(f) => rest.push("  "@ + padded(label_of(f), 25) + value_of(c, f)),
            _ => rest,
        }
    }
}

/// The switches with one row set; what the machine is and its channel are no switch.
pub open spec fn flipped(t: Toggles, field: Field, on: bool) -> Toggles {
    match field {
        Field::Group => Toggles { punktfunk_group: on, ..t },
        Field::Gamestream => Toggles { gamestream: on, ..t },
        Field::Clipboard => Toggles { clipboard: on, ..t },
        Field::Linger => Toggles { linger: on, ..t },
        Field::Start => Toggles { start: on, ..t },
        Field::OmarchyToasts => Toggles { omarchy_toasts: on, ..t },
        Field::OmarchyIdle => Toggles { omarchy_idle: on, ..t },
        Field::OmarchyTheme => Toggles { omarchy_theme: on, ..t },
        Field::Components => t,
        Field::Channel => t,
    }
}

fn flip(t: Toggles, field: Field, on: bool) -> (r: Toggles)
    ensures
        r == flipped(t, field, on),
{
    match field {
        Field::Group => Toggles { punktfunk_group: on, ..t },
        Field::Gamestream => Toggles { gamestream: on, ..t },
        Field::Clipboard => Toggles { clipboard: on, ..t },
        Field::Linger => Toggles { linger: on, ..t },
        Field::Start => Toggles { start: on, ..t },
        Field::OmarchyToasts => Toggles { omarchy_toasts: on, ..t },
        Field::OmarchyIdle => Toggles { omarchy_idle: on, ..t },
        Field::OmarchyTheme => Toggles { omarchy_theme: on, ..t },
        Field::Components => t,
        Field::Channel => t,
    }
}

/// The choices once a row is set. A row that is off explains no grant it does not make.
pub open spec fn with_bool(c: Choices, field: Field, on: bool) -> Choices {
    let t = flipped(c.toggles, field, on);
    if field == Field::Components || field == Field::Channel {
        c
    } else {
        Choices {
            toggles: t,
            group_why: if t.punktfunk_group {
                c.group_why
            } else {
                None
            },
            linger_why: if t.linger {
                c.linger_why
            } else {
                None
            },
            ..c
        }
    }
}

impl Screen {
    /// The items are those of what was found and chosen, and the cursor stands on one.
    pub open spec fn wf(self) -> bool {
        &&& self.items@ == items_of(self.facts, self.choices.components.host)
        &&& self.cursor < self.items@.len()
    }

    pub fn new(facts: Facts, choices: Choices) -> (s: Screen)
        ensures
            s.wf(),
            s.facts == facts,
            s.choices == choices,
            s.cursor == 0,
    {
        let items: Vec<Item> = items_for(&facts, choices.components.host);
        proof {
            the_first_item_installs(facts, choices.components.host);
        }
        Screen { facts, choices, items, cursor: 0 }
    }

    /// An installed host: another title, and the uninstall.
    pub fn manage_mode(&self) -> (r: bool)
        ensures
            r == self.facts.is_complete(),
    {
        self.facts.fully_installed()
    }

    pub open spec fn title_text(self) -> Seq<char> {
        if self.facts.is_complete() {
            (match self.facts.host_version {
                Some(v) => v@,
                None => "punktfunk"@,
            }) + " · "@ + (match self.facts.current_channel {
                Some(c) => c.name(),
                None => "no repo"@,
            })
        } else {
            "punktfunk setup"@ + "  ·  "@ + self.facts.os.pretty@ + " · "@
                + self.facts.family.name()
        }
    }

    pub fn title(&self) -> (s: String)
        ensures
            s@ == self.title_text(),
    {
        if self.manage_mode() {
            let version: String = match &self.facts.host_version {
                Some(v) => v.clone(),
                None => "punktfunk".to_owned(),
            };
            let channel: &str = match self.facts.current_channel {
                Some(c) => c.as_str(),
                None => "no repo",
            };
            version.concat(" · ").concat(channel)
        } else {
            "punktfunk setup".to_owned().concat("  ·  ").concat(
                self.facts.os.pretty.as_str(),
            ).concat(" · ").concat(self.facts.family.as_str())
        }
    }

    pub fn selected(&self) -> (i: Item)
        requires
            self.wf(),
        ensures
            i == self.items@[self.cursor as int],
    {
        self.items[self.cursor]
    }

    /// What a key leads to.
    pub open spec fn step_of(self, key: Key) -> Step {
        match key {
            Key::Cancel => Step::Cancel,
            Key::Enter => match self.items@[self.cursor as int] {
                Item::Go => Step::Run(Action::Install),
                Item::Uninstall => Step::Run(Action::Uninstall),
                Item::Row(f) => Step::Edit(f),
            },
            _ => Step::Idle,
        }
    }

    /// Where a key puts the cursor; it wraps at both ends.
    pub open spec fn cursor_after(self, key: Key) -> int {
        let n = self.items@.len() as int;
        match key {
            Key::Up => if self.cursor == 0 {
                n - 1
            } else {
                self.cursor - 1
            },
            Key::Down => if self.cursor + 1 == n {
                0
            } else {
                self.cursor + 1
            },
            _ => self.cursor as int,
        }
    }

    pub fn key(&mut self, key: Key) -> (s: Step)
        requires
            old(self).wf(),
        ensures
            final(self).wf(),
            s == old(self).step_of(key),
            final(self).cursor == old(self).cursor_after(key),
            final(self).facts == old(self).facts,
            final(self).choices == old(self).choices,
            final(self).items == old(self).items,
    {
        let n: usize = self.items.len();
        match key {
            Key::Up => {
                self.cursor = if self.cursor == 0 {
                    n - 1
                } else {
                    self.cursor - 1
                };
                Step::Idle
            },
            Key::Down => {
                self.cursor = if self.cursor == n - 1 {
                    0
                } else {
                    self.cursor + 1
                };
                Step::Idle
            },
            Key::Ignored => Step::Idle,
            Key::Cancel => Step::Cancel,
            Key::Enter => match self.selected() {
                Item::Go => Step::Run(Action::Install),
                Item::Uninstall => Step::Run(Action::Uninstall),
                Item::Row(f) => Step::Edit(f),
            },
        }
    }

    /// Sets a row that is on or off.
    pub fn set_bool(&mut self, field: Field, on: bool)
        requires
            old(self).wf(),
        ensures
            final(self).wf(),
            final(self).choices == with_bool(old(self).choices, field, on),
            final(self).facts == old(self).facts,
            final(self).items == old(self).items,
            final(self).cursor == old(self).cursor,
    {
        if field == Field::Components || field == Field::Channel {
            return;
        }
        let t: Toggles = flip(self.choices.toggles, field, on);
        self.choices.toggles = t;
        if !t.punktfunk_group {
            self.choices.group_why = None;
        }
        if !t.linger {
            self.choices.linger_why = None;
        }
    }

    /// Sets the channel; one the box is not on is a switch.
    pub fn set_channel(&mut self, channel: Channel)
        requires
            old(self).wf(),
        ensures
            final(self).wf(),
            final(self).choices == (Choices {
                channel,
                switch_from: match old(self).facts.current_channel {
                    Some(c) if c != channel => Some(c),
                    _ => None,
                },
                ..old(self).choices
            }),
            final(self).facts == old(self).facts,
            final(self).items == old(self).items,
            final(self).cursor == old(self).cursor,
    {
        self.choices.channel = channel;
        self.choices.switch_from = match self.facts.current_channel {
            Some(current) => if current != channel {
                Some(current)
            } else {
                None
            },
            None => None,
        };
    }

    /// Sets what the machine is. Neither is nothing to install: the host stays.
    pub fn set_components(&mut self, host: bool, client: bool)
        requires
            old(self).wf(),
        ensures
            final(self).wf(),
            final(self).choices == (Choices {
                components: (Components { host: host || !client, client }),
                ..old(self).choices
            }),
            final(self).facts == old(self).facts,
            final(self).cursor == if old(self).cursor < final(self).items@.len() {
                old(self).cursor as int
            } else {
                final(self).items@.len() - 1
            },
    {
        self.choices.components = Components { host: host || !client, client };
        self.items = items_for(&self.facts, self.choices.components.host);
        proof {
            the_first_item_installs(self.facts, self.choices.components.host);
        }
        let last: usize = self.items.len() - 1;
        if self.cursor > last {
            self.cursor = last;
        }
    }

    /// The plan of what is on the screen.
    pub fn plan(&self, cat: &Catalogue) -> (p: Plan)
        requires
            plan::plannable(*cat, self.facts, self.choices),
        ensures
            p@ == plan::plan_of(*cat, self.facts, self.choices),
    {
        plan::build(cat, &self.facts, &self.choices)
    }

    pub fn label(field: Field) -> (s: &'static str)
        ensures
            s@ == label_of(field),
    {
        match field {
            Field::Components => "This machine is",
            Field::Channel => "Channel",
            Field::Group => "Full controller support",
            Field::Gamestream => "Third-party clients",
            Field::Clipboard => "Shared clipboard",
            Field::Linger => "Start at boot",
            Field::Start => "Host service",
            Field::OmarchyToasts => "Desktop notifications",
            Field::OmarchyIdle => "Keep the screen awake",
            Field::OmarchyTheme => "Match the Omarchy theme",
        }
    }

    pub fn value(&self, field: Field) -> (s: String)
        ensures
            s@ == value_of(self.choices, field),
    {
        let c: &Choices = &self.choices;
        match field {
            Field::Components => if c.components.host && c.components.client {
                "the host, plus the client app".to_owned()
            } else if c.components.client {
                "the device I play on (client)".to_owned()
            } else {
                "the PC I stream from (host)".to_owned()
            },
            Field::Channel => match c.switch_from {
                Some(from) => from.as_str().to_owned().concat(" → ").concat(c.channel.as_str()),
                None => c.channel.as_str().to_owned(),
            },
            Field::Group => if c.toggles.punktfunk_group {
                match &c.group_why {
                    Some(why) => "yes — ".to_owned().concat(why.as_str()),
                    None => "yes — joins the punktfunk group (grants usbip attach)".to_owned(),
                }
            } else {
                "no  — the pad arrives as a plain Xbox 360 controller".to_owned()
            },
            Field::Gamestream => if c.toggles.gamestream {
                "yes".to_owned()
            } else {
                "no  — punktfunk's own apps don't need it".to_owned()
            },
            Field::Clipboard => yn(c.toggles.clipboard),
            Field::Linger => if c.toggles.linger {
                match &c.linger_why {
                    Some(why) => "yes — ".to_owned().concat(why.as_str()),
                    None => "yes".to_owned(),
                }
            } else {
                "no  — the host waits for your session".to_owned()
            },
            Field::Start => yn(c.toggles.start),
            Field::OmarchyToasts => yn(c.toggles.omarchy_toasts),
            Field::OmarchyIdle => yn(c.toggles.omarchy_idle),
            Field::OmarchyTheme => yn(c.toggles.omarchy_theme),
        }
    }

    pub fn why(field: Field) -> (s: &'static str)
        ensures
            s@ == why_of(field),
    {
        match field {
            Field::Components =>
                "Host: the PC you stream from. Client: the device you play on. One PC can be both.",
            Field::Channel => "canary is the latest main build; stable is the released one.",
            Field::Group =>
                "Joins the punktfunk group for paddles, trackpads and gyro. It grants usbip attach, so only on a machine you trust.",
            Field::Gamestream =>
                "Serve Moonlight, Artemis, or another third-party client. Punktfunk's own apps don't need this.",
            Field::Clipboard =>
                "Share the clipboard between this host and your clients. Each client still opts in per host.",
            Field::Linger =>
                "Starts the host at boot so it is reachable before anyone logs in. It can only stream once a session exists.",
            Field::Start =>
                "Enable and start the services once the install finishes. Off installs the files and starts nothing.",
            Field::OmarchyToasts =>
                "A toast when a device asks to pair, and when a stream starts or stops.",
            Field::OmarchyIdle => "Holds off the idle lock for as long as a stream is running.",
            Field::OmarchyTheme =>
                "The console follows whatever theme Omarchy is on, instead of its own palette.",
        }
    }

    /// The screen as plain text: title, rule, rows, rule, and the uninstall when it is offered.
    pub open spec fn line_texts(self) -> Seq<Seq<char>> {
        let rule = repeated('─', 63);
        (Seq::<Seq<char>>::empty().push(self.title_text()).push(rule) + row_lines(
            self.items@,
            self.choices,
            self.items@.len() as int,
        )).push(rule).push(
            "  "@ + (if self.facts.is_complete() {
                "Uninstall"@
            } else {
                ""@
            }),
        )
    }

    pub fn lines(&self) -> (out: Vec<String>)
        requires
            self.wf(),
        ensures
            text::contents(out@) == self.line_texts(),
    {
        let rule: String = repeat('─', 63);
        let mut out: Vec<String> = text::with_text(
            text::with_text(text::no_texts(), self.title().as_str()),
            rule.as_str(),
        );
        let ghost head = text::contents(out@);
        let mut i: usize = 0;
        assert(head + row_lines(self.items@, self.choices, 0) =~= head);
        while i < self.items.len()
            invariant
                i <= self.items@.len(),
                text::contents(out@) == head + row_lines(self.items@, self.choices, i as int),
            decreases self.items@.len() - i,
        {
            match self.items[i] {
                Item::Row(f) => {
                    let ghost before = text::contents(out@);
                    let line: String = "  ".to_owned().concat(
                        pad(Self::label(f), 25).as_str(),
                    ).concat(self.value(f).as_str());
                    out = text::with_text(out, line.as_str());
                    assert(text::contents(out@) =~= head + row_lines(
                        self.items@,
                        self.choices,
                        i + 1,
                    ));
                },
                _ => {},
            }
            i = i + 1;
        }
        out = text::with_text(out, rule.as_str());
        let last: String = if self.manage_mode() {
            "  ".to_owned().concat("Uninstall")
        } else {
            "  ".to_owned().concat("")
        };
        text::with_text(out, last.as_str())
    }
}

/// On arrival the cursor stands on the install, whatever was found.
pub proof fn the_first_item_installs(facts: Facts, host: bool)
    ensures
        items_of(facts, host).len() > 0,
        items_of(facts, host)[0] == Item::Go,
{
    reveal(items_of);
}

/// The uninstall is offered exactly where everything is installed, and last.
pub proof fn only_an_installed_box_offers_uninstall(facts: Facts, host: bool)
    ensures
        items_of(facts, host).contains(Item::Uninstall) == facts.is_complete(),
        facts.is_complete() ==> items_of(facts, host).last() == Item::Uninstall,
{
    reveal(items_of);
    let s = items_of(facts, host);
    if facts.is_complete() {
        assert(s[s.len() - 1] == Item::Uninstall);
    }
}

/// A screen for the client alone has no row of the host's.
pub proof fn a_client_screen_has_no_host_row(facts: Facts, i: int)
    requires
        0 <= i < items_of(facts, false).len(),
    ensures
        ({
            let x = items_of(facts, false)[i];
            x == Item::Go || x == Item::Row(Field::Components) || x == Item::Row(Field::Channel)
                || x == Item::Uninstall
        }),
{
    reveal(items_of);
}

/// Going up and then down leaves the cursor where it was.
pub proof fn up_undoes_down(s: Screen, t: Screen)
    requires
        s.wf(),
        t.items == s.items,
        t.cursor == s.cursor_after(Key::Up),
    ensures
        t.cursor_after(Key::Down) == s.cursor,
{
}

/// What the list shows is what can be chosen here: the install first, what the machine is, and a
/// row for every switch that something reads; the uninstall exactly where all is installed.
pub proof fn the_list_shows_what_can_be_chosen(facts: Facts, c: Choices, s: Screen)
    requires
        call_ensures(Screen::new, (facts, c), s),
    ensures
        s.cursor == 0,
        s.items@.len() > 0 && s.items@[0] == Item::Go,
        s.items@.contains(Item::Row(Field::Components)),
        s.items@.contains(Item::Row(Field::Channel)) <==> facts.family != Family::Steamos,
        s.items@.contains(Item::Row(Field::Group)) <==> c.components.host && facts.family
            != Family::Steamos,
        s.items@.contains(Item::Row(Field::Gamestream)) <==> c.components.host,
        s.items@.contains(Item::Row(Field::Clipboard)) <==> c.components.host,
        s.items@.contains(Item::Row(Field::Linger)) <==> c.components.host && facts.family
            != Family::Steamos && (!facts.graphical_seat || facts.couch_box),
        s.items@.contains(Item::Row(Field::Start)) <==> c.components.host && facts.family
            != Family::Steamos,
        s.items@.contains(Item::Row(Field::OmarchyToasts)) <==> c.components.host && facts.omarchy,
        s.items@.contains(Item::Row(Field::OmarchyIdle)) <==> c.components.host && facts.omarchy,
        s.items@.contains(Item::Row(Field::OmarchyTheme)) <==> c.components.host && facts.omarchy,
        s.items@.contains(Item::Uninstall) <==> facts.missing@.len() == 0,
        facts.missing@.len() == 0 ==> s.items@.last() == Item::Uninstall,
{
    lemma_items(facts, c.components.host, Item::Row(Field::Components));
    lemma_items(facts, c.components.host, Item::Row(Field::Channel));
    lemma_items(facts, c.components.host, Item::Row(Field::Group));
    lemma_items(facts, c.components.host, Item::Row(Field::Gamestream));
    lemma_items(facts, c.components.host, Item::Row(Field::Clipboard));
    lemma_items(facts, c.components.host, Item::Row(Field::Linger));
    lemma_items(facts, c.components.host, Item::Row(Field::Start));
    lemma_items(facts, c.components.host, Item::Row(Field::OmarchyToasts));
    lemma_items(facts, c.components.host, Item::Row(Field::OmarchyIdle));
    lemma_items(facts, c.components.host, Item::Row(Field::OmarchyTheme));
    the_first_item_installs(facts, c.components.host);
    only_an_installed_box_offers_uninstall(facts, c.components.host);
}

proof fn lemma_and_if(s: Seq<Item>, c: bool, y: Item, x: Item)
    ensures
        and_if(s, c, y).contains(x) <==> s.contains(x) || (c && x == y),
{
    let t = and_if(s, c, y);
    if s.contains(x) {
        let i = choose|i: int| 0 <= i < s.len() && s[i] == x;
        assert(t[i] == x);
    }
    if c && x == y {
        assert(t[s.len() as int] == x);
    }
    if t.contains(x) {
        let i = choose|i: int| 0 <= i < t.len() && t[i] == x;
        if i < s.len() {
            assert(s[i] == x);
        }
    }
}

proof fn lemma_items(facts: Facts, host: bool, x: Item)
    ensures
        items_of(facts, host).contains(x) <==> match x {
            Item::Go => true,
            Item::Uninstall => facts.is_complete(),
            Item::Row(f) => match f {
                Field::Components => true,
                Field::Channel => facts.family != Family::Steamos,
                Field::Group => host && facts.family != Family::Steamos,
                Field::Gamestream => host,
                Field::Clipboard => host,
                Field::Linger => host && facts.family != Family::Steamos && (!facts.graphical_seat
                    || facts.couch_box),
                Field::Start => host && facts.family != Family::Steamos,
                Field::OmarchyToasts => host && facts.omarchy,
                Field::OmarchyIdle => host && facts.omarchy,
                Field::OmarchyTheme => host && facts.omarchy,
            },
        },
{
    reveal(items_of);
    let deck = facts.family == Family::Steamos;
    let e = Seq::<Item>::empty();
    assert(!e.contains(x));
    lemma_and_if(e, true, Item::Go, x);
    let s0 = e.push(Item::Go);
    lemma_and_if(s0, true, Item::Row(Field::Components), x);
    let s1 = s0.push(Item::Row(Field::Components));
    lemma_and_if(s1, !deck, Item::Row(Field::Channel), x);
    let s2 = and_if(s1, !deck, Item::Row(Field::Channel));
    let b = if host {
        lemma_and_if(s2, !deck, Item::Row(Field::Group), x);
        let s3 = and_if(s2, !deck, Item::Row(Field::Group));
        lemma_and_if(s3, true, Item::Row(Field::Gamestream), x);
        let s4 = s3.push(Item::Row(Field::Gamestream));
        lemma_and_if(s4, true, Item::Row(Field::Clipboard), x);
        let s5 = s4.push(Item::Row(Field::Clipboard));
        let l = !deck && (!facts.graphical_seat || facts.couch_box);
        lemma_and_if(s5, l, Item::Row(Field::Linger), x);
        let s6 = and_if(s5, l, Item::Row(Field::Linger));
        lemma_and_if(s6, !deck, Item::Row(Field::Start), x);
        let s7 = and_if(s6, !deck, Item::Row(Field::Start));
        if facts.omarchy {
            lemma_and_if(s7, true, Item::Row(Field::OmarchyToasts), x);
            let s8 = s7.push(Item::Row(Field::OmarchyToasts));
            lemma_and_if(s8, true, Item::Row(Field::OmarchyIdle), x);
            let s9 = s8.push(Item::Row(Field::OmarchyIdle));
            lemma_and_if(s9, true, Item::Row(Field::OmarchyTheme), x);
            s9.push(Item::Row(Field::OmarchyTheme))
        } else {
            s7
        }
    } else {
        s2
    };
    lemma_and_if(b, facts.is_complete(), Item::Uninstall, x);
}

/// A key moves the cursor by one, round both ends, and leaves the choices; enter takes what it
/// stands on.
pub proof fn a_key_moves_by_one(s: &mut Screen, key: Key, step: Step)
    requires
        call_ensures(Screen::key, (s, key), step),
        old(s).wf(),
    ensures
        ({
            let n = old(s).items@.len();
            let at = old(s).cursor;
            &&& key == Key::Down ==> final(s).cursor == (at + 1) % (n as int)
            &&& key == Key::Up && at > 0 ==> final(s).cursor == at - 1
            &&& key == Key::Up && at == 0 ==> final(s).cursor == n - 1
            &&& key != Key::Up && key != Key::Down ==> final(s).cursor == at
            &&& step == Step::Cancel <==> key == Key::Cancel
            &&& step == Step::Run(Action::Install) <==> key == Key::Enter && old(s).items@[at as int]
                == Item::Go
            &&& step == Step::Run(Action::Uninstall) <==> key == Key::Enter && old(s).items@[at as int] == Item::Uninstall
            &&& step matches Step::Edit(f) ==> key == Key::Enter && old(s).items@[at as int]
                == Item::Row(f)
            &&& old(s).items@[at as int] matches Item::Row(f) ==> (key == Key::Enter ==> step
                == Step::Edit(f))
        }),
        final(s).choices == old(s).choices,
        final(s).facts == old(s).facts,
        final(s).items == old(s).items,
{
    let n = old(s).items@.len() as int;
    let at = old(s).cursor as int;
    if at + 1 < n {
        assert((at + 1) % n == at + 1) by (nonlinear_arith)
            requires
                0 <= at + 1 < n,
        ;
    } else {
        assert(at + 1 == n);
        assert((at + 1) % n == 0) by (nonlinear_arith)
            requires
                at + 1 == n,
                n > 0,
        ;
    }
}

/// A switch that is set reads as set and no other moves; one that is off gives no reason.
pub proof fn a_switch_moves_alone(s: &mut Screen, field: Field, on: bool)
    requires
        call_ensures(Screen::set_bool, (s, field, on), ()),
    ensures
        ({
            let a = old(s).choices.toggles;
            let b = final(s).choices.toggles;
            &&& b.punktfunk_group == if field == Field::Group {
                on
            } else {
                a.punktfunk_group
            }
            &&& b.gamestream == if field == Field::Gamestream {
                on
            } else {
                a.gamestream
            }
            &&& b.clipboard == if field == Field::Clipboard {
                on
            } else {
                a.clipboard
            }
            &&& b.linger == if field == Field::Linger {
                on
            } else {
                a.linger
            }
            &&& b.start == if field == Field::Start {
                on
            } else {
                a.start
            }
            &&& b.omarchy_toasts == if field == Field::OmarchyToasts {
                on
            } else {
                a.omarchy_toasts
            }
            &&& b.omarchy_idle == if field == Field::OmarchyIdle {
                on
            } else {
                a.omarchy_idle
            }
            &&& b.omarchy_theme == if field == Field::OmarchyTheme {
                on
            } else {
                a.omarchy_theme
            }
        }),
        field == Field::Group && !on ==> final(s).choices.group_why is None,
        field == Field::Linger && !on ==> final(s).choices.linger_why is None,
        final(s).choices.channel == old(s).choices.channel,
        final(s).choices.components == old(s).choices.components,
        final(s).choices.web_password == old(s).choices.web_password,
        final(s).choices.web_bind == old(s).choices.web_bind,
        final(s).choices.action == old(s).choices.action,
{
}

/// A channel that the box is not on is a switch from the one it is on; its own is none.
pub proof fn another_channel_is_a_switch(s: &mut Screen, channel: Channel)
    requires
        call_ensures(Screen::set_channel, (s, channel), ()),
    ensures
        final(s).choices.channel == channel,
        final(s).choices.switch_from matches Some(from) ==> from != channel && old(s).facts.current_channel == Some(from),
        final(s).choices.switch_from is None ==> old(s).facts.current_channel is None || old(s).facts.current_channel == Some(channel),
        final(s).choices.toggles == old(s).choices.toggles,
        final(s).choices.components == old(s).choices.components,
{
}

/// The machine is what it was set to, and never nothing.
pub proof fn a_machine_is_never_nothing(s: &mut Screen, host: bool, client: bool)
    requires
        call_ensures(Screen::set_components, (s, host, client), ()),
        old(s).wf(),
    ensures
        final(s).choices.components.client == client,
        host ==> final(s).choices.components.host,
        !host && client ==> !final(s).choices.components.host,
        final(s).choices.components.host || final(s).choices.components.client,
        final(s).choices.toggles == old(s).choices.toggles,
        final(s).cursor < final(s).items@.len(),
        final(s).cursor <= old(s).cursor,
{
}

/// The title of a complete box is its version and channel, of any other what it is.
pub proof fn the_title_says_what_the_box_is(
    s: &Screen,
    managed: bool,
    title: String,
    at: Item,
)
    requires
        call_ensures(Screen::manage_mode, (s,), managed),
        call_ensures(Screen::title, (s,), title),
        call_ensures(Screen::selected, (s,), at),
    ensures
        managed <==> s.facts.missing@.len() == 0,
        managed && s.facts.host_version is Some && s.facts.current_channel == Some(Channel::Canary)
            ==> title@ == s.facts.host_version->0@ + " · "@ + "canary"@,
        managed && s.facts.host_version is Some && s.facts.current_channel == Some(Channel::Stable)
            ==> title@ == s.facts.host_version->0@ + " · "@ + "stable"@,
        managed && s.facts.host_version is None && s.facts.current_channel is None ==> title@
            == "punktfunk"@ + " · "@ + "no repo"@,
        !managed ==> text::begins(title@, "punktfunk setup"@),
        at == s.items@[s.cursor as int],
{
    let t = title@;
    let p = "punktfunk setup"@;
    if !managed {
        assert(t.take(p.len() as int) =~= p);
    }
}

/// A row reads as its switch stands.
pub proof fn a_row_reads_as_its_switch(s: &Screen, f: Field, v: String, on: bool)
    requires
        call_ensures(Screen::value, (s, f), v),
        match f {
            Field::Components => false,
            Field::Channel => false,
            Field::Group => on == s.choices.toggles.punktfunk_group,
            Field::Gamestream => on == s.choices.toggles.gamestream,
            Field::Clipboard => on == s.choices.toggles.clipboard,
            Field::Linger => on == s.choices.toggles.linger,
            Field::Start => on == s.choices.toggles.start,
            Field::OmarchyToasts => on == s.choices.toggles.omarchy_toasts,
            Field::OmarchyIdle => on == s.choices.toggles.omarchy_idle,
            Field::OmarchyTheme => on == s.choices.toggles.omarchy_theme,
        },
    ensures
        on ==> text::begins(v@, "yes"@),
        !on ==> text::begins(v@, "no"@),
{
    reveal_strlit("yes");
    reveal_strlit("no");
    reveal_strlit("yes — ");
    reveal_strlit("yes — joins the punktfunk group (grants usbip attach)");
    reveal_strlit("no  — the pad arrives as a plain Xbox 360 controller");
    reveal_strlit("no  — punktfunk's own apps don't need it");
    reveal_strlit("no  — the host waits for your session");
    if on {
        assert(v@.take("yes"@.len() as int) =~= "yes"@);
    } else {
        assert(v@.take("no"@.len() as int) =~= "no"@);
    }
}

/// What the machine is and its channel read as they were chosen, a switch with both its ends.
pub proof fn a_row_reads_as_it_was_chosen(s: &Screen, machine: String, channel: String)
    requires
        call_ensures(Screen::value, (s, Field::Components), machine),
        call_ensures(Screen::value, (s, Field::Channel), channel),
    ensures
        s.choices.components.host && s.choices.components.client ==> machine@
            == "the host, plus the client app"@,
        s.choices.components.host && !s.choices.components.client ==> machine@
            == "the PC I stream from (host)"@,
        !s.choices.components.host && s.choices.components.client ==> machine@
            == "the device I play on (client)"@,
        s.choices.switch_from is None ==> channel@ == s.choices.channel.name(),
        s.choices.switch_from matches Some(from) ==> channel@ == from.name() + " → "@
            + s.choices.channel.name(),
{
}

/// A text is filled up to its width with blanks and never cut.
pub proof fn a_text_is_filled_up_with_blanks(s: &str, width: usize, r: String, c: char, n: usize, t: String)
    requires
        call_ensures(pad, (s, width), r),
        call_ensures(repeat, (c, n), t),
    ensures
        text::begins(r@, s@),
        r@.len() == if s@.len() < width {
            width as nat
        } else {
            s@.len()
        },
        forall|i: int| s@.len() <= i < r@.len() ==> #[trigger] r@[i] == ' ',
        t@.len() == n,
        forall|i: int| 0 <= i < n ==> #[trigger] t@[i] == c,
{
    assert(r@.take(s@.len() as int) =~= s@);
}

/// The screen is its title, a line for each row between two rules, and the uninstall where there
/// is one.
pub proof fn the_screen_has_a_line_for_each_row(s: &Screen, out: Vec<String>, title: String)
    requires
        call_ensures(Screen::lines, (s,), out),
        call_ensures(Screen::title, (s,), title),
    ensures
        out@.len() == 4 + rows_in(s.items@, s.items@.len() as int),
        out@[0]@ == title@,
        s.facts.missing@.len() == 0 ==> out@.last()@ == "  "@ + "Uninstall"@,
        s.facts.missing@.len() > 0 ==> out@.last()@ == "  "@ + ""@,
{
    lemma_rows(s.items@, s.choices, s.items@.len() as int);
    let t = text::contents(out@);
    assert(t.len() == out@.len());
    assert(t[0] == out@[0]@);
    assert(t.last() == out@.last()@);
}

/// How many of the first `n` items are rows.
pub open spec fn rows_in(items: Seq<Item>, n: int) -> int
    decreases n,
{
    if n <= 0 {
        0
    } else {
        rows_in(items, n - 1) + (if items[n - 1] is Row {
            1int
        } else {
            0
        })
    }
}

proof fn lemma_rows(items: Seq<Item>, c: Choices, n: int)
    requires
        0 <= n <= items.len(),
    ensures
        row_lines(items, c, n).len() == rows_in(items, n),
    decreases n,
{
    if n > 0 {
        lemma_rows(items, c, n - 1);
    }
}

/// The plan of a screen is the plan of what was found and chosen.
pub proof fn a_screen_plans_what_it_shows(
    s: &Screen,
    cat: &Catalogue,
    p: Plan,
    facts: &Facts,
    c: &Choices,
    q: Plan,
)
    requires
        call_ensures(Screen::plan, (s, cat), p),
        *facts == s.facts,
        *c == s.choices,
        call_ensures(plan::build, (cat, facts, c), q),
    ensures
        p@ == q@,
{
}

/// Each row says why, in words of its own: what a grant brings, what is left off, and who needs
/// it.
pub proof fn a_row_says_why(f: Field, s: &'static str)
    requires
        call_ensures(Screen::why, (f,), s),
    ensures
        f == Field::Components ==> s@
            == "Host: the PC you stream from. Client: the device you play on. One PC can be both."@,
        f == Field::Channel ==> s@
            == "canary is the latest main build; stable is the released one."@,
        f == Field::Group ==> s@
            == "Joins the punktfunk group for paddles, trackpads and gyro. It grants usbip attach, so only on a machine you trust."@,
        f == Field::Gamestream ==> s@
            == "Serve Moonlight, Artemis, or another third-party client. Punktfunk's own apps don't need this."@,
        f == Field::Clipboard ==> s@
            == "Share the clipboard between this host and your clients. Each client still opts in per host."@,
        f == Field::Linger ==> s@
            == "Starts the host at boot so it is reachable before anyone logs in. It can only stream once a session exists."@,
        f == Field::Start ==> s@
            == "Enable and start the services once the install finishes. Off installs the files and starts nothing."@,
        f == Field::OmarchyToasts ==> s@
            == "A toast when a device asks to pair, and when a stream starts or stops."@,
        f == Field::OmarchyIdle ==> s@
            == "Holds off the idle lock for as long as a stream is running."@,
        f == Field::OmarchyTheme ==> s@
            == "The console follows whatever theme Omarchy is on, instead of its own palette."@,
{
}

} // verus!
