//! The paired-client store.
//!
//! A change is written first and taken over only when the write succeeded, so memory never
//! differs from disk. Fingerprints are compared without regard to the case of their letters.
//! Grant masks are stored as given; readers mask them. Expiry is host wall clock, looked at anew
//! each time.

use crate::text;
use vstd::prelude::*;

verus! {

/// The grant masks with a meaning of their own.
#[derive(Clone, Copy, Debug, PartialEq, Eq, Structural)]
pub struct GrantMasks {
    /// Every grant this host knows.
    pub all: u32,
    /// What full control was written as before.
    pub legacy_full: u32,
}

/// One paired client.
pub struct PairedClient {
    pub name: String,
    /// Hex digest of the client's certificate.
    pub fingerprint: String,
    /// Grant mask; `None`, from older stores, is full control.
    pub grants: Option<u32>,
    /// Wall-clock seconds; `None` is permanent.
    pub expires_unix: Option<i64>,
    /// When access was granted; for display only.
    pub granted_unix: Option<i64>,
    /// Drop the record once the device's last session has ended.
    pub until_disconnect: bool,
    /// The player slot this device's pads take.
    pub preferred_pad_slot: Option<u8>,
}

/// What a record holds.
#[verifier::ext_equal]
pub struct ClientView {
    pub name: Seq<char>,
    pub fingerprint: Seq<char>,
    pub grants: Option<u32>,
    pub expires_unix: Option<i64>,
    pub granted_unix: Option<i64>,
    pub until_disconnect: bool,
    pub preferred_pad_slot: Option<u8>,
}

impl View for PairedClient {
    type V = ClientView;

    open spec fn view(&self) -> ClientView {
        ClientView {
            name: self.name@,
            fingerprint: self.fingerprint@,
            grants: self.grants,
            expires_unix: self.expires_unix,
            granted_unix: self.granted_unix,
            until_disconnect: self.until_disconnect,
            preferred_pad_slot: self.preferred_pad_slot,
        }
    }
}

/// The paired clients.
pub struct PairedClients {
    pub clients: Vec<PairedClient>,
}

impl View for PairedClients {
    type V = Seq<ClientView>;

    open spec fn view(&self) -> Seq<ClientView> {
        self.clients@.map_values(|c: PairedClient| c@)
    }
}

/// An operator's choice of access.
#[derive(Clone, Copy, Debug, PartialEq, Eq, Structural)]
pub struct Access {
    pub grants: u32,
    pub expires_unix: Option<i64>,
    pub until_disconnect: bool,
}

/// The first record of a fingerprint at or after `k`; the length when there is none.
pub open spec fn find(s: Seq<ClientView>, fp: Seq<char>, k: int) -> int
    decreases s.len() - k,
{
    if k >= s.len() {
        s.len() as int
    } else if text::like(s[k].fingerprint, fp) {
        k
    } else {
        find(s, fp, k + 1)
    }
}

/// The fingerprint has a record.
pub open spec fn paired(s: Seq<ClientView>, fp: Seq<char>) -> bool {
    find(s, fp, 0) < s.len()
}

/// A record with an access choice put in its place.
pub open spec fn with_access(c: ClientView, a: Access, now_unix: i64) -> ClientView {
    ClientView {
        grants: Some(a.grants),
        expires_unix: a.expires_unix,
        until_disconnect: a.until_disconnect,
        granted_unix: Some(now_unix),
        ..c
    }
}

/// A new record: full and permanent without a choice.
pub open spec fn new_client(
    name: Seq<char>,
    fp: Seq<char>,
    access: Option<Access>,
    now_unix: i64,
) -> ClientView {
    ClientView {
        name,
        fingerprint: fp,
        grants: match access {
            Some(a) => Some(a.grants),
            None => None,
        },
        expires_unix: match access {
            Some(a) => a.expires_unix,
            None => None,
        },
        granted_unix: match access {
            Some(a) => Some(now_unix),
            None => None,
        },
        until_disconnect: match access {
            Some(a) => a.until_disconnect,
            None => false,
        },
        preferred_pad_slot: None,
    }
}

/// The store after pairing: an existing record takes the name, and the access only when one was
/// chosen; otherwise a new record is added.
pub open spec fn added(
    s: Seq<ClientView>,
    name: Seq<char>,
    fp: Seq<char>,
    access: Option<Access>,
    now_unix: i64,
) -> Seq<ClientView> {
    if paired(s, fp) {
        let i = find(s, fp, 0);
        let named = ClientView { name, ..s[i] };
        s.update(
            i,
            match access {
                Some(a) => with_access(named, a, now_unix),
                None => named,
            },
        )
    } else {
        s.push(new_client(name, fp, access, now_unix))
    }
}

/// The store without a fingerprint.
pub open spec fn without(s: Seq<ClientView>, fp: Seq<char>) -> Seq<ClientView>
    decreases s.len(),
{
    if s.len() == 0 {
        s
    } else if text::like(s.last().fingerprint, fp) {
        without(s.drop_last(), fp)
    } else {
        without(s.drop_last(), fp).push(s.last())
    }
}

/// What a fingerprint may do now: nothing when it is not paired or has expired; else its grants,
/// every one when none were written, and never a bit this host does not know.
pub open spec fn effective_grants(
    s: Seq<ClientView>,
    fp: Seq<char>,
    now_unix: i64,
    m: GrantMasks,
) -> Option<u32> {
    if !paired(s, fp) {
        None
    } else {
        let c = s[find(s, fp, 0)];
        if c.expires_unix matches Some(t) && now_unix >= t {
            None
        } else {
            let g = match c.grants {
                Some(g) => g,
                None => m.all,
            };
            Some((if g == m.legacy_full {
                m.all
            } else {
                g
            }) & m.all)
        }
    }
}

fn copy_client(c: &PairedClient) -> (r: PairedClient)
    ensures
        r@ == c@,
{
    PairedClient {
        name: c.name.clone(),
        fingerprint: c.fingerprint.clone(),
        grants: c.grants,
        expires_unix: c.expires_unix,
        granted_unix: c.granted_unix,
        until_disconnect: c.until_disconnect,
        preferred_pad_slot: c.preferred_pad_slot,
    }
}

impl PairedClients {
    fn copy(&self) -> (r: PairedClients)
        ensures
            r@ == self@,
            r.clients@.len() == self.clients@.len(),
    {
        let mut clients: Vec<PairedClient> = Vec::new();
        let mut i: usize = 0;
        while i < self.clients.len()
            invariant
                i <= self.clients@.len(),
                clients@.len() == i,
                forall|k: int| 0 <= k < i ==> (#[trigger] clients@[k])@ == self.clients@[k]@,
            decreases self.clients@.len() - i,
        {
            clients.push(copy_client(&self.clients[i]));
            i = i + 1;
        }
        let r: PairedClients = PairedClients { clients };
        assert(r@ =~= self@);
        r
    }

    fn position(&self, fp_hex: &str) -> (r: usize)
        ensures
            r == find(self@, fp_hex@, 0),
            r <= self.clients@.len(),
    {
        let mut i: usize = 0;
        while i < self.clients.len()
            invariant
                i <= self.clients@.len(),
                find(self@, fp_hex@, 0) == find(self@, fp_hex@, i as int),
            decreases self.clients@.len() - i,
        {
            if text::same_ignoring_case(self.clients[i].fingerprint.as_str(), fp_hex) {
                return i;
            }
            i = i + 1;
        }
        i
    }

    /// Whether the fingerprint has a record.
    pub fn contains(&self, fp_hex: &str) -> (r: bool)
        ensures
            r == paired(self@, fp_hex@),
    {
        self.position(fp_hex) < self.clients.len()
    }
}

/// The store of one host.
pub struct TrustStore {
    pub paired: PairedClients,
}

/// A writer that may be called with any contents.
pub open spec fn can_save<F: Fn(&PairedClients) -> bool>(save: F) -> bool {
    forall|c: &PairedClients| #[trigger] call_requires(save, (c,))
}

/// `clean` can be asked for any name and fingerprint.
pub open spec fn can_clean<C: Fn(&str, &str) -> String>(clean: C) -> bool {
    forall|name: &str, fp: &str| #[trigger] call_requires(clean, (name, fp))
}

/// `save` was handed exactly `s` and said `ok`.
pub open spec fn saved<F: Fn(&PairedClients) -> bool>(save: F, s: Seq<ClientView>, ok: bool) -> bool {
    exists|c: PairedClients| c@ == s && #[trigger] call_ensures(save, (&c,), ok)
}

impl TrustStore {
    /// A store over what was read; nothing when nothing could be.
    pub fn open(read: Option<PairedClients>) -> (t: TrustStore)
        ensures
            t.paired@ == match read {
                Some(c) => c@,
                None => Seq::<ClientView>::empty(),
            },
    {
        match read {
            Some(c) => TrustStore { paired: c },
            None => {
                let t: TrustStore = TrustStore { paired: PairedClients { clients: Vec::new() } };
                assert(t.paired@ =~= Seq::<ClientView>::empty());
                t
            },
        }
    }

    /// Whether the fingerprint has a record, expired or not.
    pub fn is_paired(&self, fp_hex: &str) -> (r: bool)
        ensures
            r == paired(self.paired@, fp_hex@),
    {
        self.paired.contains(fp_hex)
    }

    /// What the fingerprint may do at `now_unix`.
    pub fn effective(&self, fp_hex: &str, now_unix: i64, m: &GrantMasks) -> (g: Option<u32>)
        ensures
            g == effective_grants(self.paired@, fp_hex@, now_unix, *m),
    {
        let i: usize = self.paired.position(fp_hex);
        if i >= self.paired.clients.len() {
            return None;
        }
        let c: &PairedClient = &self.paired.clients[i];
        assert(self.paired@[i as int] == c@);
        match c.expires_unix {
            Some(t) => {
                if now_unix >= t {
                    return None;
                }
            },
            None => {},
        }
        let g: u32 = match c.grants {
            Some(g) => g,
            None => m.all,
        };
        let g: u32 = if g == m.legacy_full {
            m.all
        } else {
            g
        };
        Some(g & m.all)
    }

    /// The record as stored: no expiry, no mask.
    pub fn get(&self, fp_hex: &str) -> (r: Option<PairedClient>)
        ensures
            r is Some <==> paired(self.paired@, fp_hex@),
            r matches Some(c) ==> c@ == self.paired@[find(self.paired@, fp_hex@, 0)],
    {
        let i: usize = self.paired.position(fp_hex);
        if i < self.paired.clients.len() {
            assert(self.paired@[i as int] == self.paired.clients@[i as int]@);
            Some(copy_client(&self.paired.clients[i]))
        } else {
            None
        }
    }

    /// Pairs without a choice of access. `clean` gives a device's name as it is kept and shown.
    pub fn add<C: Fn(&str, &str) -> String, F: Fn(&PairedClients) -> bool>(
        &mut self,
        name: &str,
        fp_hex: &str,
        now_unix: i64,
        clean: C,
        save: F,
    ) -> (ok: bool)
        requires
            can_clean(clean),
            can_save(save),
        ensures
            exists|kept: String| #[trigger]
                call_ensures(clean, (name, fp_hex), kept) && {
                    let goal = added(old(self).paired@, kept@, fp_hex@, None, now_unix);
                    &&& saved(save, goal, ok)
                    &&& final(self).paired@ == if ok {
                        goal
                    } else {
                        old(self).paired@
                    }
                },
    {
        self.add_with_access(name, fp_hex, None, now_unix, clean, save)
    }

    /// Pairs, with a choice of access if one was made. The name is kept as `clean` gives it.
    pub fn add_with_access<C: Fn(&str, &str) -> String, F: Fn(&PairedClients) -> bool>(
        &mut self,
        name: &str,
        fp_hex: &str,
        access: Option<Access>,
        now_unix: i64,
        clean: C,
        save: F,
    ) -> (ok: bool)
        requires
            can_clean(clean),
            can_save(save),
        ensures
            exists|kept: String| #[trigger]
                call_ensures(clean, (name, fp_hex), kept) && {
                    let goal = added(old(self).paired@, kept@, fp_hex@, access, now_unix);
                    &&& saved(save, goal, ok)
                    &&& final(self).paired@ == if ok {
                        goal
                    } else {
                        old(self).paired@
                    }
                },
    {
        let kept: String = clean(name, fp_hex);
        assert(call_ensures(clean, (name, fp_hex), kept));
        self.add_cleaned(kept.as_str(), fp_hex, access, now_unix, save)
    }

    /// Pairs under a name that was cleaned before; `false` when it could not be written, and then
    /// nothing changed.
    pub fn add_cleaned<F: Fn(&PairedClients) -> bool>(
        &mut self,
        name: &str,
        fp_hex: &str,
        access: Option<Access>,
        now_unix: i64,
        save: F,
    ) -> (ok: bool)
        requires
            can_save(save),
        ensures
            saved(save, added(old(self).paired@, name@, fp_hex@, access, now_unix), ok),
            final(self).paired@ == if ok {
                added(old(self).paired@, name@, fp_hex@, access, now_unix)
            } else {
                old(self).paired@
            },
    {
        let mut next: PairedClients = self.paired.copy();
        let i: usize = next.position(fp_hex);
        let ghost before = next@;
        let ghost goal = added(before, name@, fp_hex@, access, now_unix);
        if i < next.clients.len() {
            let mut c: PairedClient = copy_client(&next.clients[i]);
            assert(before[i as int] == next.clients@[i as int]@);
            c.name = name.to_owned();
            match access {
                Some(a) => {
                    c.grants = Some(a.grants);
                    c.expires_unix = a.expires_unix;
                    c.until_disconnect = a.until_disconnect;
                    c.granted_unix = Some(now_unix);
                },
                None => {},
            }
            next.clients.set(i, c);
            assert(next@ =~= before.update(i as int, c@));
            assert(goal[i as int] =~= c@);
            assert(next@ =~= goal);
        } else {
            let c: PairedClient = PairedClient {
                name: name.to_owned(),
                fingerprint: fp_hex.to_owned(),
                grants: match access {
                    Some(a) => Some(a.grants),
                    None => None,
                },
                expires_unix: match access {
                    Some(a) => a.expires_unix,
                    None => None,
                },
                granted_unix: match access {
                    Some(_) => Some(now_unix),
                    None => None,
                },
                until_disconnect: match access {
                    Some(a) => a.until_disconnect,
                    None => false,
                },
                preferred_pad_slot: None,
            };
            next.clients.push(c);
            assert(next@ =~= before.push(c@));
            assert(c@ =~= new_client(name@, fp_hex@, access, now_unix));
            assert(next@ =~= goal);
        }
        self.commit(next, save)
    }

    /// Takes a changed store over once it is written.
    fn commit<F: Fn(&PairedClients) -> bool>(&mut self, next: PairedClients, save: F) -> (ok: bool)
        requires
            can_save(save),
        ensures
            saved(save, next@, ok),
            final(self).paired@ == if ok {
                next@
            } else {
                old(self).paired@
            },
    {
        let ok: bool = save(&next);
        assert(call_ensures(save, (&next,), ok));
        if ok {
            self.paired = next;
        }
        ok
    }

    /// Overwrites the access of an existing record; nothing happens to an unknown fingerprint.
    /// `None` when it could not be written.
    pub fn set_access<F: Fn(&PairedClients) -> bool>(
        &mut self,
        fp_hex: &str,
        access: Access,
        now_unix: i64,
        save: F,
    ) -> (r: Option<bool>)
        requires
            can_save(save),
        ensures
            !paired(old(self).paired@, fp_hex@) ==> r == Some(false) && final(self).paired@
                == old(self).paired@,
            paired(old(self).paired@, fp_hex@) ==> {
                let i = find(old(self).paired@, fp_hex@, 0);
                let goal = old(self).paired@.update(
                    i,
                    with_access(old(self).paired@[i], access, now_unix),
                );
                &&& r == Some(true) || r is None
                &&& saved(save, goal, r is Some)
                &&& final(self).paired@ == if r is Some {
                    goal
                } else {
                    old(self).paired@
                }
            },
    {
        let mut next: PairedClients = self.paired.copy();
        let i: usize = next.position(fp_hex);
        if i >= next.clients.len() {
            return Some(false);
        }
        let ghost before = next@;
        let mut c: PairedClient = copy_client(&next.clients[i]);
        assert(before[i as int] == next.clients@[i as int]@);
        c.grants = Some(access.grants);
        c.expires_unix = access.expires_unix;
        c.until_disconnect = access.until_disconnect;
        c.granted_unix = Some(now_unix);
        next.clients.set(i, c);
        assert(c@ =~= with_access(before[i as int], access, now_unix));
        assert(next@ =~= before.update(i as int, c@));
        if self.commit(next, save) {
            Some(true)
        } else {
            None
        }
    }

    /// Puts a device's pads on a slot, or gives them back to the lazy claim. Nothing happens to
    /// an unknown fingerprint; `None` when it could not be written.
    pub fn set_pad_slot<F: Fn(&PairedClients) -> bool>(
        &mut self,
        fp_hex: &str,
        slot: Option<u8>,
        save: F,
    ) -> (r: Option<bool>)
        requires
            can_save(save),
        ensures
            !paired(old(self).paired@, fp_hex@) ==> r == Some(false) && final(self).paired@
                == old(self).paired@,
            paired(old(self).paired@, fp_hex@) ==> {
                let i = find(old(self).paired@, fp_hex@, 0);
                let goal = old(self).paired@.update(
                    i,
                    ClientView { preferred_pad_slot: slot, ..old(self).paired@[i] },
                );
                &&& r == Some(true) || r is None
                &&& saved(save, goal, r is Some)
                &&& final(self).paired@ == if r is Some {
                    goal
                } else {
                    old(self).paired@
                }
            },
    {
        let mut next: PairedClients = self.paired.copy();
        let i: usize = next.position(fp_hex);
        if i >= next.clients.len() {
            return Some(false);
        }
        let ghost before = next@;
        let mut c: PairedClient = copy_client(&next.clients[i]);
        assert(before[i as int] == next.clients@[i as int]@);
        c.preferred_pad_slot = slot;
        next.clients.set(i, c);
        assert(c@ =~= (ClientView { preferred_pad_slot: slot, ..before[i as int] }));
        assert(next@ =~= before.update(i as int, c@));
        if self.commit(next, save) {
            Some(true)
        } else {
            None
        }
    }

    /// Every record.
    pub fn list(&self) -> (v: Vec<PairedClient>)
        ensures
            v@.map_values(|c: PairedClient| c@) == self.paired@,
    {
        self.paired.copy().clients
    }

    /// Drops a fingerprint; whether it was there, or `None` when the change could not be written.
    pub fn remove<F: Fn(&PairedClients) -> bool>(&mut self, fp_hex: &str, save: F) -> (r: Option<
        bool,
    >)
        requires
            can_save(save),
        ensures
            !paired(old(self).paired@, fp_hex@) ==> r == Some(false) && final(self).paired@
                == old(self).paired@,
            paired(old(self).paired@, fp_hex@) ==> {
                let goal = without(old(self).paired@, fp_hex@);
                &&& r == Some(true) || r is None
                &&& saved(save, goal, r is Some)
                &&& final(self).paired@ == if r is Some {
                    goal
                } else {
                    old(self).paired@
                }
            },
    {
        if !self.paired.contains(fp_hex) {
            return Some(false);
        }
        let mut clients: Vec<PairedClient> = Vec::new();
        let ghost all = self.paired@;
        let mut i: usize = 0;
        assert(all.take(0) =~= Seq::<ClientView>::empty());
        assert(clients@.map_values(|c: PairedClient| c@) =~= Seq::<ClientView>::empty());
        while i < self.paired.clients.len()
            invariant
                i <= self.paired.clients@.len(),
                all == self.paired@,
                clients@.map_values(|c: PairedClient| c@) == without(
                    all.take(i as int),
                    fp_hex@,
                ),
            decreases self.paired.clients@.len() - i,
        {
            let c: &PairedClient = &self.paired.clients[i];
            let ghost before = clients@;
            proof {
                assert(all.take(i + 1).drop_last() =~= all.take(i as int));
                assert(all.take(i + 1).last() == c@);
            }
            if !text::same_ignoring_case(c.fingerprint.as_str(), fp_hex) {
                let kept: PairedClient = copy_client(c);
                clients.push(kept);
                assert(clients@.map_values(|c: PairedClient| c@) =~= before.map_values(
                    |c: PairedClient| c@,
                ).push(kept@));
            }
            i = i + 1;
        }
        assert(all.take(i as int) =~= all);
        if self.commit(PairedClients { clients }, save) {
            Some(true)
        } else {
            None
        }
    }

    /// Drops every record in one write and names the fingerprints that went; `None` when it could
    /// not be written. An empty store is not written again.
    pub fn remove_all<F: Fn(&PairedClients) -> bool>(&mut self, save: F) -> (r: Option<Vec<String>>)
        requires
            can_save(save),
        ensures
            old(self).paired@.len() == 0 ==> r is Some && r->0@.len() == 0 && final(self).paired@
                == old(self).paired@,
            old(self).paired@.len() > 0 ==> saved(save, Seq::<ClientView>::empty(), r is Some),
            r matches Some(v) ==> text::contents(v@) == old(self).paired@.map_values(
                |c: ClientView| c.fingerprint,
            ) && final(self).paired@.len() == 0,
            r is None ==> final(self).paired@ == old(self).paired@,
    {
        let mut gone: Vec<String> = Vec::new();
        let mut i: usize = 0;
        while i < self.paired.clients.len()
            invariant
                i <= self.paired.clients@.len(),
                gone@.len() == i,
                forall|k: int|
                    0 <= k < i ==> (#[trigger] gone@[k])@ == self.paired.clients@[k].fingerprint@,
            decreases self.paired.clients@.len() - i,
        {
            gone.push(self.paired.clients[i].fingerprint.clone());
            i = i + 1;
        }
        assert(text::contents(gone@) =~= self.paired@.map_values(|c: ClientView| c.fingerprint));
        if self.paired.clients.len() == 0 {
            return Some(gone);
        }
        let empty: PairedClients = PairedClients { clients: Vec::new() };
        assert(empty@ =~= Seq::<ClientView>::empty());
        if self.commit(empty, save) {
            Some(gone)
        } else {
            None
        }
    }

    /// How many records there are.
    pub fn count(&self) -> (n: u32)
        requires
            self.paired@.len() <= u32::MAX,
        ensures
            n == self.paired@.len(),
    {
        self.paired.clients.len() as u32
    }
}

/// A found record is like the fingerprint, and none before it is.
pub proof fn lemma_find(s: Seq<ClientView>, fp: Seq<char>, k: int)
    requires
        0 <= k <= s.len(),
    ensures
        k <= find(s, fp, k) <= s.len(),
        find(s, fp, k) < s.len() ==> text::like(s[find(s, fp, k)].fingerprint, fp),
        forall|j: int| k <= j < find(s, fp, k) ==> !text::like((#[trigger] s[j]).fingerprint, fp),
    decreases s.len() - k,
{
    if k < s.len() && !text::like(s[k].fingerprint, fp) {
        lemma_find(s, fp, k + 1);
    }
}

proof fn lemma_find_first(s: Seq<ClientView>, fp: Seq<char>, k: int, i: int)
    requires
        0 <= k <= i < s.len(),
        text::like(s[i].fingerprint, fp),
        forall|j: int| k <= j < i ==> !text::like((#[trigger] s[j]).fingerprint, fp),
    ensures
        find(s, fp, k) == i,
    decreases i - k,
{
    if k < i {
        lemma_find_first(s, fp, k + 1, i);
    }
}

/// A paired device is found again, under any spelling of its fingerprint's letters.
pub proof fn pairing_is_found(
    s: Seq<ClientView>,
    name: Seq<char>,
    fp: Seq<char>,
    access: Option<Access>,
    now_unix: i64,
    asked: Seq<char>,
)
    requires
        text::like(asked, fp),
    ensures
        paired(added(s, name, fp, access, now_unix), asked),
{
    let a = added(s, name, fp, access, now_unix);
    lemma_find(s, fp, 0);
    lemma_find(a, asked, 0);
    if paired(s, fp) {
        let i = find(s, fp, 0);
        assert(text::like(a[i].fingerprint, asked));
        if !paired(a, asked) {
            assert(!text::like(a[i].fingerprint, asked));
        }
    } else {
        let i = a.len() - 1;
        assert(text::like(a[i].fingerprint, asked));
        if !paired(a, asked) {
            assert(!text::like(a[i].fingerprint, asked));
        }
    }
}

/// Pairing again without a choice of access never changes what the device may do, nor what any
/// other device may.
pub proof fn repairing_never_widens(
    s: Seq<ClientView>,
    name: Seq<char>,
    fp: Seq<char>,
    now_unix: i64,
    at_unix: i64,
    m: GrantMasks,
    asked: Seq<char>,
)
    requires
        paired(s, fp),
    ensures
        effective_grants(added(s, name, fp, None, now_unix), asked, at_unix, m)
            == effective_grants(s, asked, at_unix, m),
{
    let a = added(s, name, fp, None, now_unix);
    let i = find(s, fp, 0);
    lemma_find(s, fp, 0);
    assert forall|k: int| 0 <= k < s.len() implies a[k].fingerprint == (#[trigger] s[k]).fingerprint
        && a[k].grants == s[k].grants && a[k].expires_unix == s[k].expires_unix by {
        if k == i {
            assert(a[k] == (ClientView { name, ..s[i] }));
        }
    }
    lemma_find(s, asked, 0);
    lemma_find(a, asked, 0);
    let j = find(s, asked, 0);
    if j < s.len() {
        assert forall|k: int| 0 <= k < j implies !text::like((#[trigger] a[k]).fingerprint, asked) by {
            assert(!text::like(s[k].fingerprint, asked));
        }
        lemma_find_first(a, asked, 0, j);
    } else {
        let k = find(a, asked, 0);
        if k < a.len() {
            assert(text::like(s[k].fingerprint, asked));
        }
    }
}

/// No device is granted a bit this host does not know, and an expired one nothing at all.
pub proof fn grants_are_masked_and_expire(
    s: Seq<ClientView>,
    fp: Seq<char>,
    now_unix: i64,
    m: GrantMasks,
)
    ensures
        effective_grants(s, fp, now_unix, m) matches Some(g) ==> g & !m.all == 0,
        paired(s, fp) && s[find(s, fp, 0)].expires_unix is Some && now_unix >= s[find(
            s,
            fp,
            0,
        )].expires_unix->0 ==> effective_grants(s, fp, now_unix, m) is None,
{
    if let Some(g) = effective_grants(s, fp, now_unix, m) {
        let c = s[find(s, fp, 0)];
        let raw = match c.grants {
            Some(g) => g,
            None => m.all,
        };
        let base = if raw == m.legacy_full {
            m.all
        } else {
            raw
        };
        let all = m.all;
        assert((base & all) & !all == 0) by (bit_vector);
    }
}

/// A removed device is not paired any more, and every other device keeps its record.
pub proof fn removal_is_final(s: Seq<ClientView>, fp: Seq<char>)
    ensures
        !paired(without(s, fp), fp),
        forall|c: ClientView|
            #![trigger without(s, fp).contains(c)]
            #![trigger s.contains(c)]
            without(s, fp).contains(c) <==> s.contains(c) && !text::like(c.fingerprint, fp),
{
    lemma_without(s, fp);
    let w = without(s, fp);
    lemma_find(w, fp, 0);
    if paired(w, fp) {
        let i = find(w, fp, 0);
        assert(w.contains(w[i]));
    }
}

proof fn lemma_without(s: Seq<ClientView>, fp: Seq<char>)
    ensures
        forall|c: ClientView|
            #![trigger without(s, fp).contains(c)]
            #![trigger s.contains(c)]
            without(s, fp).contains(c) <==> s.contains(c) && !text::like(c.fingerprint, fp),
    decreases s.len(),
{
    if s.len() > 0 {
        let d = s.drop_last();
        lemma_without(d, fp);
        let w = without(s, fp);
        let wd = without(d, fp);
        assert forall|c: ClientView|
            #![trigger without(s, fp).contains(c)]
            #![trigger s.contains(c)]
            without(s, fp).contains(c) <==> s.contains(c) && !text::like(c.fingerprint, fp) by {
            if s.contains(c) && !text::like(c.fingerprint, fp) {
                let k = choose|k: int| 0 <= k < s.len() && s[k] == c;
                if k < s.len() - 1 {
                    assert(d[k] == c);
                    assert(d.contains(c));
                    let j = choose|j: int| 0 <= j < wd.len() && wd[j] == c;
                    assert(w[j] == c);
                } else {
                    assert(w.last() == c);
                    assert(w[w.len() - 1] == c);
                }
            }
            if w.contains(c) {
                let j = choose|j: int| 0 <= j < w.len() && w[j] == c;
                if !text::like(s.last().fingerprint, fp) && j == w.len() - 1 {
                    assert(s[s.len() - 1] == c);
                } else {
                    assert(wd[j] == c);
                    assert(wd.contains(c));
                    let k = choose|k: int| 0 <= k < d.len() && d[k] == c;
                    assert(s[k] == c);
                }
            }
        }
    }
}

proof fn lemma_same_place(s: Seq<ClientView>, t: Seq<ClientView>, fp: Seq<char>, k: int)
    requires
        s.len() == t.len(),
        forall|i: int| 0 <= i < s.len() ==> (#[trigger] s[i]).fingerprint == t[i].fingerprint,
        0 <= k <= s.len(),
    ensures
        find(t, fp, k) == find(s, fp, k),
    decreases s.len() - k,
{
    if k < s.len() && !text::like(s[k].fingerprint, fp) {
        lemma_same_place(s, t, fp, k + 1);
    }
}

proof fn lemma_same_letters(s: Seq<ClientView>, a: Seq<char>, b: Seq<char>, k: int)
    requires
        text::like(a, b),
        0 <= k <= s.len(),
    ensures
        find(s, a, k) == find(s, b, k),
    decreases s.len() - k,
{
    if k < s.len() && !text::like(s[k].fingerprint, a) {
        lemma_same_letters(s, a, b, k + 1);
    }
}

/// Some record has this fingerprint, in any spelling of its letters.
pub open spec fn known(s: Seq<ClientView>, fp: Seq<char>) -> bool {
    exists|i: int| 0 <= i < s.len() && text::like((#[trigger] s[i]).fingerprint, fp)
}

proof fn lemma_known(s: Seq<ClientView>, fp: Seq<char>)
    ensures
        known(s, fp) <==> paired(s, fp),
{
    lemma_find(s, fp, 0);
}

/// A device is paired exactly while some record has its fingerprint, in any spelling of its
/// letters; then its record can be had, and it is one of those.
pub proof fn a_record_is_found_by_its_fingerprint(
    t: &TrustStore,
    fp: &str,
    there: bool,
    r: Option<PairedClient>,
)
    requires
        call_ensures(TrustStore::is_paired, (t, fp), there),
        call_ensures(TrustStore::get, (t, fp), r),
    ensures
        there <==> known(t.paired@, fp@),
        there <==> r is Some,
        r matches Some(c) ==> t.paired@.contains(c@) && text::like(c@.fingerprint, fp@),
{
    lemma_find(t.paired@, fp@, 0);
    lemma_known(t.paired@, fp@);
}

/// What a device may do is its record's say at that moment: nothing without one, nothing from the
/// second it expires on, and until then its grants as far as this host knows them; a record
/// without grants, or with those that once meant everything, has every one.
pub proof fn a_record_says_what_a_device_may_do(
    t: &TrustStore,
    fp: &str,
    now_unix: i64,
    m: &GrantMasks,
    g: Option<u32>,
    r: Option<PairedClient>,
)
    requires
        call_ensures(TrustStore::effective, (t, fp, now_unix, m), g),
        call_ensures(TrustStore::get, (t, fp), r),
    ensures
        r is None ==> g is None,
        r matches Some(c) ==> {
            &&& (c.expires_unix matches Some(e) && now_unix >= e) <==> g is None
            &&& g is Some && c.grants is None ==> g == Some(m.all)
            &&& g is Some && c.grants == Some(m.legacy_full) ==> g == Some(m.all)
            &&& g is Some && (c.grants matches Some(x) && x != m.legacy_full) ==> g == Some(
                c.grants->0 & m.all,
            )
        },
{
    let all = m.all;
    assert(all & all == all) by (bit_vector);
}

/// A choice of access that was written is the one in force: the device's record holds its grants,
/// its end and whether it lasts for the session, so access that ends has ended from that second
/// on. Every other device keeps its record, and a choice that could not be written changes
/// nothing.
pub proof fn a_choice_of_access_is_in_force<F: Fn(&PairedClients) -> bool>(
    t: &mut TrustStore,
    fp: &str,
    access: Access,
    now_unix: i64,
    save: F,
    r: Option<bool>,
    after: &TrustStore,
    asked: &str,
    at_unix: i64,
    m: &GrantMasks,
    record: Option<PairedClient>,
    g: Option<u32>,
)
    requires
        call_ensures(TrustStore::set_access::<F>, (t, fp, access, now_unix, save), r),
        *after == *final(t),
        text::like(asked@, fp@),
        call_ensures(TrustStore::get, (after, asked), record),
        call_ensures(TrustStore::effective, (after, asked, at_unix, m), g),
    ensures
        r == Some(true) ==> {
            &&& record matches Some(c) && c.grants == Some(access.grants) && c.expires_unix
                == access.expires_unix && c.until_disconnect == access.until_disconnect
                && c.granted_unix == Some(now_unix)
            &&& (access.expires_unix matches Some(e) && at_unix >= e) <==> g is None
            &&& g is Some && access.grants != m.legacy_full ==> g == Some(access.grants & m.all)
        },
        r != Some(true) ==> final(t).paired@ == old(t).paired@,
        r == Some(false) <==> !known(old(t).paired@, fp@),
        final(t).paired@.len() == old(t).paired@.len(),
        forall|i: int|
            0 <= i < old(t).paired@.len() && !text::like(
                (#[trigger] old(t).paired@[i]).fingerprint,
                fp@,
            ) ==> final(t).paired@[i] == old(t).paired@[i],
        forall|i: int|
            0 <= i < old(t).paired@.len() ==> (#[trigger] old(t).paired@[i]).fingerprint == final(
                t).paired@[i].fingerprint && old(t).paired@[i].name == final(t).paired@[i].name
                && old(t).paired@[i].preferred_pad_slot == final(t).paired@[i].preferred_pad_slot,
{
    let s = old(t).paired@;
    let n = final(t).paired@;
    lemma_known(s, fp@);
    lemma_find(s, fp@, 0);
    lemma_same_place(s, n, fp@, 0);
    lemma_same_letters(n, asked@, fp@, 0);
}

/// Pairing puts the device's name, and the choice of access if one was made, in its record; a new
/// device without a choice has every grant for good, and one paired before keeps what it had.
/// Every other device keeps its record, and a pairing that could not be written changes nothing.
pub proof fn a_pairing_is_in_force<F: Fn(&PairedClients) -> bool>(
    t: &mut TrustStore,
    name: &str,
    fp: &str,
    access: Option<Access>,
    now_unix: i64,
    save: F,
    ok: bool,
    after: &TrustStore,
    asked: &str,
    at_unix: i64,
    m: &GrantMasks,
    record: Option<PairedClient>,
    g: Option<u32>,
)
    requires
        call_ensures(TrustStore::add_cleaned::<F>, (t, name, fp, access, now_unix, save), ok),
        *after == *final(t),
        text::like(asked@, fp@),
        call_ensures(TrustStore::get, (after, asked), record),
        call_ensures(TrustStore::effective, (after, asked, at_unix, m), g),
    ensures
        ok ==> {
            &&& record matches Some(c) && c.name@ == name@ && text::like(c.fingerprint@, fp@)
            &&& access matches Some(a) ==> record->0.grants == Some(a.grants)
                && record->0.expires_unix == a.expires_unix && record->0.until_disconnect
                == a.until_disconnect && record->0.granted_unix == Some(now_unix)
            &&& access matches Some(a) ==> ((a.expires_unix matches Some(e) && at_unix >= e)
                <==> g is None)
            &&& access is None && !known(old(t).paired@, fp@) ==> g == Some(m.all)
            &&& final(t).paired@.len() == old(t).paired@.len() + if known(old(t).paired@, fp@) {
                0int
            } else {
                1
            }
        },
        !ok ==> final(t).paired@ == old(t).paired@,
        forall|i: int|
            0 <= i < old(t).paired@.len() && !text::like(
                (#[trigger] old(t).paired@[i]).fingerprint,
                fp@,
            ) ==> final(t).paired@[i] == old(t).paired@[i],
        access is None ==> forall|i: int|
            0 <= i < old(t).paired@.len() ==> (#[trigger] old(t).paired@[i]).grants == final(
                t).paired@[i].grants && old(t).paired@[i].expires_unix == final(
                t).paired@[i].expires_unix && old(t).paired@[i].until_disconnect == final(
                t).paired@[i].until_disconnect,
{
    let s = old(t).paired@;
    let n = final(t).paired@;
    let all = m.all;
    assert(all & all == all) by (bit_vector);
    lemma_known(s, fp@);
    lemma_find(s, fp@, 0);
    lemma_same_letters(n, asked@, fp@, 0);
    if ok {
        if paired(s, fp@) {
            lemma_same_place(s, n, fp@, 0);
        } else {
            let last = n.len() - 1;
            assert forall|j: int| 0 <= j < last implies !text::like(
                (#[trigger] n[j]).fingerprint,
                fp@,
            ) by {
                assert(n[j] == s[j]);
            }
            lemma_find_first(n, fp@, 0, last);
        }
    }
}

/// A device paired under a name given by its client is kept under that name as it is cleaned, with
/// the choice of access that was made.
pub proof fn a_pairing_keeps_the_cleaned_name<
    C: Fn(&str, &str) -> String,
    F: Fn(&PairedClients) -> bool,
>(
    t: &mut TrustStore,
    name: &str,
    fp: &str,
    access: Option<Access>,
    now_unix: i64,
    clean: C,
    save: F,
    ok: bool,
    after: &TrustStore,
    record: Option<PairedClient>,
)
    requires
        call_ensures(
            TrustStore::add_with_access::<C, F>,
            (t, name, fp, access, now_unix, clean, save),
            ok,
        ),
        *after == *final(t),
        call_ensures(TrustStore::get, (after, fp), record),
    ensures
        ok ==> record is Some && exists|kept: String| #[trigger]
            call_ensures(clean, (name, fp), kept) && record->0.name@ == kept@,
        ok ==> (access matches Some(a) ==> record->0.grants == Some(a.grants)
            && record->0.expires_unix == a.expires_unix && record->0.until_disconnect
            == a.until_disconnect),
        !ok ==> final(t).paired@ == old(t).paired@,
{
    let s = old(t).paired@;
    let n = final(t).paired@;
    lemma_find(s, fp@, 0);
    if ok {
        if paired(s, fp@) {
            assert forall|i: int| 0 <= i < s.len() implies (#[trigger] s[i]).fingerprint
                == n[i].fingerprint by {}
            lemma_same_place(s, n, fp@, 0);
        } else {
            let last = n.len() - 1;
            assert forall|j: int| 0 <= j < last implies !text::like(
                (#[trigger] n[j]).fingerprint,
                fp@,
            ) by {
                assert(n[j] == s[j]);
            }
            lemma_find_first(n, fp@, 0, last);
        }
    }
}

/// Pairing without a choice of access leaves the access of every device as it was, and gives a new
/// one everything for good.
pub proof fn pairing_again_widens_nothing<
    C: Fn(&str, &str) -> String,
    F: Fn(&PairedClients) -> bool,
>(t: &mut TrustStore, name: &str, fp: &str, now_unix: i64, clean: C, save: F, ok: bool)
    requires
        call_ensures(TrustStore::add::<C, F>, (t, name, fp, now_unix, clean, save), ok),
    ensures
        forall|i: int|
            0 <= i < old(t).paired@.len() ==> (#[trigger] old(t).paired@[i]).grants == final(
                t).paired@[i].grants && old(t).paired@[i].expires_unix == final(
                t).paired@[i].expires_unix && old(t).paired@[i].fingerprint == final(
                t).paired@[i].fingerprint,
        ok && !known(old(t).paired@, fp@) ==> final(t).paired@.last().fingerprint == fp@ && final(
            t).paired@.last().grants is None && final(t).paired@.last().expires_unix is None,
        !ok ==> final(t).paired@ == old(t).paired@,
{
    lemma_known(old(t).paired@, fp@);
    lemma_find(old(t).paired@, fp@, 0);
}

/// A pad slot that was written is the device's, and its access stays as it was.
pub proof fn a_pad_slot_leaves_access_alone<F: Fn(&PairedClients) -> bool>(
    t: &mut TrustStore,
    fp: &str,
    slot: Option<u8>,
    save: F,
    r: Option<bool>,
    after: &TrustStore,
    record: Option<PairedClient>,
)
    requires
        call_ensures(TrustStore::set_pad_slot::<F>, (t, fp, slot, save), r),
        *after == *final(t),
        call_ensures(TrustStore::get, (after, fp), record),
    ensures
        r == Some(true) ==> (record matches Some(c) && c.preferred_pad_slot == slot),
        r == Some(false) <==> !known(old(t).paired@, fp@),
        r != Some(true) ==> final(t).paired@ == old(t).paired@,
        final(t).paired@.len() == old(t).paired@.len(),
        forall|i: int|
            0 <= i < old(t).paired@.len() ==> {
                let (b, a) = (#[trigger] old(t).paired@[i], final(t).paired@[i]);
                &&& a.fingerprint == b.fingerprint && a.name == b.name && a.grants == b.grants
                &&& a.expires_unix == b.expires_unix && a.granted_unix == b.granted_unix
                &&& a.until_disconnect == b.until_disconnect
                &&& !text::like(b.fingerprint, fp@) ==> a.preferred_pad_slot == b.preferred_pad_slot
            },
{
    let s = old(t).paired@;
    let n = final(t).paired@;
    lemma_known(s, fp@);
    lemma_find(s, fp@, 0);
    lemma_same_place(s, n, fp@, 0);
}

/// A device that was removed is paired no more and may do nothing, in any spelling of its
/// fingerprint; every other record stays.
pub proof fn a_removed_device_may_do_nothing<F: Fn(&PairedClients) -> bool>(
    t: &mut TrustStore,
    fp: &str,
    save: F,
    r: Option<bool>,
    after: &TrustStore,
    asked: &str,
    at_unix: i64,
    m: &GrantMasks,
    there: bool,
    g: Option<u32>,
)
    requires
        call_ensures(TrustStore::remove::<F>, (t, fp, save), r),
        *after == *final(t),
        text::like(asked@, fp@),
        call_ensures(TrustStore::is_paired, (after, asked), there),
        call_ensures(TrustStore::effective, (after, asked, at_unix, m), g),
    ensures
        r is Some ==> !there && g is None,
        r == Some(true) <==> r is Some && known(old(t).paired@, fp@),
        r != Some(true) ==> final(t).paired@ == old(t).paired@,
        forall|c: ClientView|
            old(t).paired@.contains(c) && !text::like(c.fingerprint, fp@) ==> #[trigger] final(
                t).paired@.contains(c),
        forall|c: ClientView|
            #[trigger] final(t).paired@.contains(c) ==> old(t).paired@.contains(c),
{
    let s = old(t).paired@;
    lemma_known(s, fp@);
    lemma_without(s, fp@);
    removal_is_final(s, fp@);
    lemma_same_letters(final(t).paired@, asked@, fp@, 0);
}

/// Removing every device leaves none, and names each that went.
pub proof fn removing_all_leaves_none<F: Fn(&PairedClients) -> bool>(
    t: &mut TrustStore,
    save: F,
    r: Option<Vec<String>>,
)
    requires
        call_ensures(TrustStore::remove_all::<F>, (t, save), r),
    ensures
        r matches Some(v) ==> final(t).paired@.len() == 0 && v@.len() == old(t).paired@.len()
            && forall|i: int|
            0 <= i < v@.len() ==> (#[trigger] v@[i])@ == old(t).paired@[i].fingerprint,
        r is None ==> final(t).paired@ == old(t).paired@,
        old(t).paired@.len() == 0 ==> r is Some,
{
    if let Some(v) = r {
        assert(text::contents(v@).len() == v@.len());
        assert forall|i: int| 0 <= i < v@.len() implies (#[trigger] v@[i])@ == old(
            t).paired@[i].fingerprint by {
            assert(text::contents(v@)[i] == v@[i]@);
        }
    }
}

/// A change is in memory exactly when the writer took it: what the writer was handed is what the
/// store holds from then on, and a refused write leaves the store as it was.
pub proof fn memory_follows_the_disk<F: Fn(&PairedClients) -> bool>(
    t: &mut TrustStore,
    fp: &str,
    access: Access,
    now_unix: i64,
    save: F,
    r: Option<bool>,
)
    requires
        call_ensures(TrustStore::set_access::<F>, (t, fp, access, now_unix, save), r),
        known(old(t).paired@, fp@),
    ensures
        r is Some ==> exists|c: PairedClients|
            c@ == final(t).paired@ && #[trigger] call_ensures(save, (&c,), true),
        r is None ==> exists|c: PairedClients| #[trigger]
            call_ensures(save, (&c,), false) && final(t).paired@ == old(t).paired@,
{
    lemma_known(old(t).paired@, fp@);
}

/// What is listed and counted is what is stored.
pub proof fn the_list_is_the_store(t: &TrustStore, v: Vec<PairedClient>, n: u32)
    requires
        t.paired@.len() <= u32::MAX,
        call_ensures(TrustStore::list, (t,), v),
        call_ensures(TrustStore::count, (t,), n),
    ensures
        v@.len() == n,
        n == t.paired@.len(),
        forall|i: int| 0 <= i < v@.len() ==> (#[trigger] v@[i])@ == t.paired@[i],
{
    let w = v@.map_values(|c: PairedClient| c@);
    assert(w.len() == v@.len());
    assert forall|i: int| 0 <= i < v@.len() implies (#[trigger] v@[i])@ == t.paired@[i] by {
        assert(w[i] == v@[i]@);
    }
}

} // verus!
