//! Whether a pad's audio is streamed and where it is captured. Opening devices and the streaming
//! thread stay with the caller.

use crate::text;
use vstd::prelude::*;
use vstd::string::StringExecFns;

verus! {

/// What a pad can play.
pub const KIND_BIT_HAPTICS: u8 = 1;

pub const KIND_BIT_SPEAKER: u8 = 2;

/// The setting does not say no.
pub open spec fn allowed(knob: Option<Seq<char>>) -> bool {
    knob != Some("0"@)
}

fn knob_allows(knob: Option<&str>) -> (r: bool)
    ensures
        r == allowed(text::opt_view(knob)),
{
    match knob {
        Some(v) => !text::same(v, "0"),
        None => true,
    }
}

/// Whether the host offers pad audio on Linux: it was asked for, is not switched off, and the
/// sound server answers.
pub fn linux_host_cap(asked: bool, knob: Option<&str>, pipewire_reachable: bool) -> (r: bool)
    ensures
        r == (asked && allowed(text::opt_view(knob)) && pipewire_reachable),
{
    asked && knob_allows(knob) && pipewire_reachable
}

/// Whether the host offers pad audio on Windows: it was asked for, is not switched off, and some
/// endpoint is provisioned.
pub fn windows_host_cap(asked: bool, knob: Option<&str>, endpoints: Option<usize>) -> (r: bool)
    ensures
        r == (asked && allowed(text::opt_view(knob)) && (endpoints matches Some(n) && n > 0)),
{
    let some: bool = match endpoints {
        Some(n) => n > 0,
        None => false,
    };
    asked && knob_allows(knob) && some
}

/// A pad plays something this streams.
pub open spec fn plays(kinds: u8) -> bool {
    kinds & (KIND_BIT_HAPTICS | KIND_BIT_SPEAKER) != 0
}

/// Where a pad is captured on Linux.
#[derive(Clone, Copy, Debug, PartialEq, Eq, Structural)]
pub enum LinuxSource {
    /// Nothing to stream.
    NoKinds,
    /// Past the slots that may stream.
    PastSlots,
    /// The pad's own card.
    Usb { slot: u8 },
    /// Sinks made in the place of a card.
    Sink { slot: u8, edge: bool },
}

/// Where a pad is captured. It goes by the pad's transport and not by what is there yet, or the
/// sinks would be made beside a real card.
pub fn linux_spawn(kinds: u8, slot: u8, slots: u8, usb: bool, edge: bool) -> (s: LinuxSource)
    ensures
        s == if !plays(kinds) {
            LinuxSource::NoKinds
        } else if slot >= slots {
            LinuxSource::PastSlots
        } else if usb {
            LinuxSource::Usb { slot }
        } else {
            LinuxSource::Sink { slot, edge }
        },
{
    if kinds & (KIND_BIT_HAPTICS | KIND_BIT_SPEAKER) == 0 {
        LinuxSource::NoKinds
    } else if slot >= slots {
        LinuxSource::PastSlots
    } else if usb {
        LinuxSource::Usb { slot }
    } else {
        LinuxSource::Sink { slot, edge }
    }
}

/// An endpoint of a slot.
pub struct Endpoint {
    pub endpoint_id: String,
    /// Its marks are stored and not served: opening it would seem well and play on the wrong
    /// channels.
    pub needs_aeb_kick: bool,
}

/// Whether a pad is captured on Windows.
#[derive(Clone, Copy, Debug, PartialEq, Eq, Structural)]
pub enum WindowsVerdict {
    /// Nothing to stream.
    NoKinds,
    /// The slot has no endpoint.
    NoEndpoint,
    /// The device is there and its endpoint is not.
    NoId,
    /// The endpoint refuses the format.
    RefusesFormat,
    /// The marks are not served.
    NotAdopted,
    Stream,
}

/// Whether a pad is captured on Windows, and if not, why.
pub fn windows_spawn(kinds: u8, endpoint: &Option<Endpoint>, refuses_format: bool) -> (v:
    WindowsVerdict)
    ensures
        v == if !plays(kinds) {
            WindowsVerdict::NoKinds
        } else {
            match *endpoint {
                None => WindowsVerdict::NoEndpoint,
                Some(e) => if e.endpoint_id@.len() == 0 {
                    WindowsVerdict::NoId
                } else if refuses_format {
                    WindowsVerdict::RefusesFormat
                } else if e.needs_aeb_kick {
                    WindowsVerdict::NotAdopted
                } else {
                    WindowsVerdict::Stream
                },
            }
        },
{
    if kinds & (KIND_BIT_HAPTICS | KIND_BIT_SPEAKER) == 0 {
        return WindowsVerdict::NoKinds;
    }
    match endpoint {
        None => WindowsVerdict::NoEndpoint,
        Some(e) => if e.endpoint_id.as_str().is_empty() {
            WindowsVerdict::NoId
        } else if refuses_format {
            WindowsVerdict::RefusesFormat
        } else if e.needs_aeb_kick {
            WindowsVerdict::NotAdopted
        } else {
            WindowsVerdict::Stream
        },
    }
}

/// The one repair a streamer may try on a refused format.
#[derive(Clone, Copy, Debug, PartialEq, Eq, Structural)]
pub struct Repair {
    pub tried: bool,
}

impl Repair {
    pub fn new() -> (r: Repair)
        ensures
            !r.tried,
    {
        Repair { tried: false }
    }

    /// A failed open is worth a repair and one more open.
    pub open spec fn is_due(self, unsupported_format: bool) -> bool {
        unsupported_format && !self.tried
    }

    /// After a failed open.
    pub open spec fn after(self, unsupported_format: bool) -> Repair {
        Repair { tried: self.tried || unsupported_format }
    }

    /// Whether a failed open is worth a repair and one more open.
    pub fn due(&mut self, unsupported_format: bool) -> (d: bool)
        ensures
            d == old(self).is_due(unsupported_format),
            *final(self) == old(self).after(unsupported_format),
    {
        if !unsupported_format {
            return false;
        }
        let d: bool = !self.tried;
        self.tried = true;
        d
    }
}

/// The name of a pad's thread.
pub fn thread_name(pad: u8) -> (s: String)
    ensures
        s@ == "punktfunk1-pad"@ + text::decimal(pad as nat),
{
    "punktfunk1-pad".to_owned().concat(text::decimal_u64(pad as u64).as_str())
}

/// How many repairs a run of failed opens brings.
pub open spec fn repairs(r: Repair, opens: Seq<bool>) -> nat
    decreases opens.len(),
{
    if opens.len() == 0 {
        0
    } else {
        repairs(r.after(opens[0]), opens.skip(1)) + if r.is_due(opens[0]) {
            1nat
        } else {
            0nat
        }
    }
}

/// A streamer repairs at most once, however often its opens fail.
pub proof fn one_repair_per_streamer(r: Repair, opens: Seq<bool>)
    ensures
        repairs(r, opens) <= 1,
        r.tried ==> repairs(r, opens) == 0,
    decreases opens.len(),
{
    if opens.len() > 0 {
        one_repair_per_streamer(r.after(opens[0]), opens.skip(1));
    }
}

/// Pad audio is offered only where it was asked for, is not switched off by `0`, and something can
/// play it; and there it is.
pub proof fn an_offer_needs_asking_leave_and_means(
    asked: bool,
    knob: Option<&str>,
    reachable: bool,
    endpoints: Option<usize>,
    linux: bool,
    windows: bool,
)
    requires
        call_ensures(linux_host_cap, (asked, knob, reachable), linux),
        call_ensures(windows_host_cap, (asked, knob, endpoints), windows),
    ensures
        linux || windows ==> asked && !(knob is Some && knob->0@ == seq!['0']),
        linux ==> reachable,
        windows ==> endpoints is Some && endpoints->0 > 0,
        asked && !(knob is Some && knob->0@ == seq!['0']) ==> linux == reachable && windows == (
        endpoints is Some && endpoints->0 > 0),
{
    reveal_strlit("0");
    assert("0"@ =~= seq!['0']);
}

/// A pad is captured exactly where it plays haptics or a speaker and has a slot: on its own card
/// where it has one, else on sinks made for it.
pub proof fn a_pad_is_captured_where_it_plays(
    kinds: u8,
    slot: u8,
    slots: u8,
    usb: bool,
    edge: bool,
    s: LinuxSource,
)
    requires
        call_ensures(linux_spawn, (kinds, slot, slots, usb, edge), s),
    ensures
        s == LinuxSource::NoKinds <==> kinds & 1 == 0 && kinds & 2 == 0,
        s == LinuxSource::PastSlots <==> (kinds & 1 != 0 || kinds & 2 != 0) && slot >= slots,
        s is Usb ==> usb && s == (LinuxSource::Usb { slot }),
        s is Sink ==> !usb && s == (LinuxSource::Sink { slot, edge }),
{
    assert(kinds & (1u8 | 2u8) == 0 <==> (kinds & 1 == 0 && kinds & 2 == 0)) by (bit_vector);
}

/// A pad is streamed on Windows only through an endpoint that is there, takes the format and
/// serves its marks.
pub proof fn an_endpoint_is_sound(
    kinds: u8,
    endpoint: &Option<Endpoint>,
    refuses: bool,
    v: WindowsVerdict,
)
    requires
        call_ensures(windows_spawn, (kinds, endpoint, refuses), v),
    ensures
        v == WindowsVerdict::Stream <==> (kinds & 1 != 0 || kinds & 2 != 0) && endpoint is Some
            && endpoint->0.endpoint_id@.len() > 0 && !refuses && !endpoint->0.needs_aeb_kick,
        v == WindowsVerdict::NoKinds <==> kinds & 1 == 0 && kinds & 2 == 0,
        v == WindowsVerdict::NoEndpoint ==> endpoint is None,
        v == WindowsVerdict::NoId ==> endpoint is Some && endpoint->0.endpoint_id@.len() == 0,
        v == WindowsVerdict::RefusesFormat ==> refuses,
        v == WindowsVerdict::NotAdopted ==> endpoint is Some && endpoint->0.needs_aeb_kick
            && !refuses,
{
    assert(kinds & (1u8 | 2u8) == 0 <==> (kinds & 1 == 0 && kinds & 2 == 0)) by (bit_vector);
}

/// The first refused format is worth a repair and no later one; other failures are none and cost
/// none.
pub proof fn a_format_is_repaired_once(r: &mut Repair, unsupported: bool, d: bool, n: Repair)
    requires
        call_ensures(Repair::due, (r, unsupported), d),
        call_ensures(Repair::new, (), n),
    ensures
        d <==> unsupported && !old(r).tried,
        d ==> final(r).tried,
        !unsupported ==> *final(r) == *old(r),
        old(r).tried ==> final(r).tried && !d,
        !n.tried,
{
}

/// Every pad's thread bears its number.
pub proof fn a_thread_bears_its_number(pad: u8, s: String, n: String)
    requires
        call_ensures(thread_name, (pad,), s),
        call_ensures(text::decimal_u64, (pad as u64,), n),
    ensures
        s@ == "punktfunk1-pad"@ + n@,
{
}

} // verus!
