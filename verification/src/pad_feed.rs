//! The live tap of a session's gamepads for a console's controllers page.
//!
//! One feed per session, so a stream opened on one cannot see another's pads. With nobody
//! watching no frame is built.

use tokio::sync::broadcast;
use vstd::prelude::*;

verus! {

/// Frames a consumer may fall behind before it lags and is dropped.
pub const FEED_CAPACITY: usize = 256;

/// One pad's whole state as the host holds it.
#[derive(Clone, Debug, PartialEq, Eq)]
pub struct PadFrame {
    /// The number the client gave the pad.
    pub pad: u8,
    pub ts_ms: u64,
    /// The virtual controller the host built.
    pub device: String,
    /// What the client declared it to be.
    pub declared: Option<String>,
    /// Host-wide slot; absent before the device is built.
    pub slot: Option<u8>,
    /// `false` is the unplug frame.
    pub present: bool,
    pub buttons: u32,
    pub left_trigger: u8,
    pub right_trigger: u8,
    pub ls_x: i16,
    pub ls_y: i16,
    pub rs_x: i16,
    pub rs_y: i16,
}

/// `tokio::sync::broadcast::Sender`.
#[verifier::external_type_specification]
#[verifier::external_body]
#[verifier::reject_recursive_types(T)]
pub struct ExSender<T>(broadcast::Sender<T>);

/// `tokio::sync::broadcast::Receiver`.
#[verifier::external_type_specification]
#[verifier::external_body]
#[verifier::reject_recursive_types(T)]
pub struct ExReceiver<T>(broadcast::Receiver<T>);

/// The frames that a channel has taken for its receivers, in the order they were sent.
pub uninterp spec fn frames_taken(tx: broadcast::Sender<PadFrame>) -> Seq<PadFrame>;

/// Whether a channel has ever handed out a receiver.
pub uninterp spec fn was_joined(tx: broadcast::Sender<PadFrame>) -> bool;

/// `broadcast::Sender::new` makes a channel that has taken no frame and handed out no receiver. It
/// takes a capacity from 1 up to half of `usize`.
#[verifier::external_body]
fn feed_channel(capacity: usize) -> (tx: broadcast::Sender<PadFrame>)
    requires
        0 < capacity <= usize::MAX / 2,
    ensures
        frames_taken(tx) == Seq::<PadFrame>::empty(),
        !was_joined(tx),
{
    broadcast::Sender::new(capacity)
}

/// `Sender::subscribe` hands out a receiver of what is sent from now on. Nothing is claimed of the
/// receiver: what it still finds depends on when it looks.
#[verifier::external_body]
fn feed_subscribe(tx: &mut broadcast::Sender<PadFrame>) -> (rx: broadcast::Receiver<PadFrame>)
    ensures
        frames_taken(*final(tx)) == frames_taken(*old(tx)),
        was_joined(*final(tx)),
{
    tx.subscribe()
}

/// `Sender::receiver_count` counts the receivers at the moment of the call: none where none was
/// handed out. Those handed out come and go on other threads, so nothing more is claimed of the
/// number.
#[verifier::external_body]
fn feed_receivers(tx: &broadcast::Sender<PadFrame>) -> (n: usize)
    ensures
        !was_joined(*tx) ==> n == 0,
{
    tx.receiver_count()
}

/// `Sender::send` takes a frame for every receiver, or gives it back when there is none, and hands
/// out no receiver. Where a receiver was handed out before, which of the two happens depends on
/// other threads and is not claimed.
#[verifier::external_body]
fn feed_send(tx: &mut broadcast::Sender<PadFrame>, frame: PadFrame) -> (taken: bool)
    ensures
        frames_taken(*final(tx)) == if taken {
            frames_taken(*old(tx)).push(frame)
        } else {
            frames_taken(*old(tx))
        },
        was_joined(*final(tx)) == was_joined(*old(tx)),
        taken ==> was_joined(*old(tx)),
{
    tx.send(frame).is_ok()
}

/// One session's pad tap.
pub struct PadFeed {
    tx: broadcast::Sender<PadFrame>,
    /// A console has attached and wants every live pad again.
    resync: bool,
}

/// Builds a frame only when someone watches.
pub fn frame_for<F: FnOnce() -> PadFrame>(watching: bool, frame: F) -> (r: Option<PadFrame>)
    requires
        call_requires(frame, ()),
    ensures
        r is Some <==> watching,
        r matches Some(f) ==> call_ensures(frame, (), f),
{
    if watching {
        Some(frame())
    } else {
        None
    }
}

/// Whether a pending resync is due, and what stays pending: it is taken once, and kept while
/// nobody watches.
pub fn resync_due(pending: bool, watching: bool) -> (r: (bool, bool))
    ensures
        r.0 == (watching && pending),
        r.1 == (pending && !watching),
{
    (watching && pending, pending && !watching)
}

/// Whether a count of receivers is anyone.
pub fn anyone(n: usize) -> (w: bool)
    ensures
        w == (n > 0),
{
    n > 0
}

impl PadFeed {
    /// A console has attached and not been given every live pad yet.
    pub closed spec fn pending(self) -> bool {
        self.resync
    }

    /// A console has attached at some time.
    pub closed spec fn joined(self) -> bool {
        was_joined(self.tx)
    }

    /// The frames handed on to the consoles, oldest first.
    pub closed spec fn published(self) -> Seq<PadFrame> {
        frames_taken(self.tx)
    }

    pub fn new() -> (f: PadFeed)
        ensures
            !f.pending(),
            !f.joined(),
            f.published() == Seq::<PadFrame>::empty(),
    {
        PadFeed { tx: feed_channel(FEED_CAPACITY), resync: false }
    }

    /// Attaches a console and asks for a full picture: a held button sends no further frames.
    pub fn subscribe(&mut self) -> (rx: broadcast::Receiver<PadFrame>)
        ensures
            final(self).pending(),
            final(self).joined(),
            final(self).published() == old(self).published(),
    {
        let rx: broadcast::Receiver<PadFrame> = feed_subscribe(&mut self.tx);
        self.resync = true;
        rx
    }

    /// Whether anyone is on the page: nobody before the first console has attached, and after
    /// that as the consoles come and go.
    pub fn watching(&self) -> (w: bool)
        ensures
            w ==> self.joined(),
    {
        anyone(feed_receivers(&self.tx))
    }

    /// Takes a pending resync when someone watches.
    pub fn take_resync(&mut self) -> (due: bool)
        ensures
            due ==> old(self).joined() && old(self).pending() && !final(self).pending(),
            !due ==> final(self).pending() == old(self).pending(),
            final(self).joined() == old(self).joined(),
            final(self).published() == old(self).published(),
    {
        let watching: bool = self.watching();
        let (due, pending): (bool, bool) = resync_due(self.resync, watching);
        self.resync = pending;
        due
    }

    /// Publishes one pad; the frame is built only when someone watches. `true` when it was. The
    /// frame built is the one handed on, unless the last console has left in between.
    pub fn publish<F: FnOnce() -> PadFrame>(&mut self, frame: F) -> (built: bool)
        requires
            call_requires(frame, ()),
        ensures
            built ==> old(self).joined() && exists|f: PadFrame| #[trigger]
                call_ensures(frame, (), f) && (final(self).published() == old(
                    self,
                ).published().push(f) || final(self).published() == old(self).published()),
            !built ==> final(self).published() == old(self).published(),
            final(self).joined() == old(self).joined(),
            final(self).pending() == old(self).pending(),
    {
        let watching: bool = self.watching();
        match frame_for(watching, frame) {
            Some(f) => {
                let _taken: bool = feed_send(&mut self.tx, f);
                true
            },
            None => false,
        }
    }
}

impl Default for PadFeed {
    fn default() -> (f: PadFeed)
        ensures
            !f.pending(),
            !f.joined(),
            f.published() == Seq::<PadFrame>::empty(),
    {
        PadFeed::new()
    }
}

/// A resync is given once: what is due is no longer pending, what is not due stays as it was, and
/// one that is pending is due as soon as someone watches.
pub proof fn a_resync_is_given_once(pending: bool, watching: bool, r: (bool, bool), n: usize, w: bool)
    requires
        call_ensures(resync_due, (pending, watching), r),
        call_ensures(anyone, (n,), w),
    ensures
        r.0 ==> pending && watching && !r.1,
        !r.0 ==> r.1 == pending,
        pending && watching ==> r.0,
        w <==> n != 0,
        FEED_CAPACITY == 256,
{
}

/// A console that attaches is owed every pad until a resync is taken, and what was published
/// before stays; nobody is owed anything at first.
pub proof fn a_console_is_owed_every_pad(
    f: &mut PadFeed,
    rx: broadcast::Receiver<PadFrame>,
    g: &mut PadFeed,
    due: bool,
    made: PadFeed,
    w: bool,
)
    requires
        call_ensures(PadFeed::subscribe, (f,), rx),
        *old(g) == *final(f),
        call_ensures(PadFeed::take_resync, (g,), due),
        call_ensures(PadFeed::new, (), made),
        call_ensures(PadFeed::watching, (&made,), w),
    ensures
        final(f).pending() && final(f).joined(),
        due <==> !final(g).pending(),
        !made.pending(),
        !w,
        final(f).published() == old(f).published(),
        final(g).published() == old(g).published(),
{
}

/// A frame is built exactly where someone watches, and only what the maker built is handed on,
/// last and once.
pub proof fn a_frame_is_built_for_a_watcher<F: FnOnce() -> PadFrame>(
    frame: F,
    built: Option<PadFrame>,
    none: Option<PadFrame>,
    f: &mut PadFeed,
    maker: F,
    told: bool,
)
    requires
        call_requires(frame, ()),
        call_requires(maker, ()),
        call_ensures(frame_for::<F>, (true, frame), built),
        call_ensures(frame_for::<F>, (false, frame), none),
        call_ensures(PadFeed::publish::<F>, (f, maker), told),
    ensures
        built is Some && call_ensures(frame, (), built->0),
        none is None,
        final(f).published().len() == old(f).published().len() + 1 ==> told && call_ensures(
            maker,
            (),
            final(f).published().last(),
        ) && final(f).published().drop_last() == old(f).published(),
        !told ==> final(f).published() == old(f).published(),
        told ==> old(f).joined(),
        final(f).pending() == old(f).pending(),
{
    if told {
        let x = choose|x: PadFrame| #[trigger]
            call_ensures(maker, (), x) && (final(f).published() == old(f).published().push(x)
                || final(f).published() == old(f).published());
        assert(old(f).published().push(x).drop_last() =~= old(f).published());
    }
}

} // verus!
