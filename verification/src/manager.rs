//! The registry of live sessions, keyed by channel id.

use vstd::prelude::*;
use vstd::string::StringSliceAdditionalSpecFns;
use vstd::string::StringExecFns;
use crate::channel::{resize_ops, script_of, send_ops, shutdown_ops, Script, Verb};
use crate::error::{ErrorKind, SshError};
use crate::pump::{Effect, EffectView};
use crate::secrets::random_bytes;

verus! {

/// The sessions that are open, each under its channel id.
///
/// The manager owns one value of type `S` per session: whatever the caller
/// needs to reach the session again. No channel id is held twice, and the
/// manager remembers every id it has ever held or handed out, so that none
/// is given a second time. The sessions of one process are few, so both are
/// lists that are searched in order.
pub struct SshManager<S> {
    channels: Vec<(String, S)>,
    issued: Vec<String>,
}

/// What looking up `id` in the sessions `m` gives: the session, or the
/// failure that names the unknown id.
pub open spec fn lookup<S>(m: Map<Seq<char>, S>, id: Seq<char>) -> Result<
    S,
    (ErrorKind, Seq<char>),
> {
    if m.contains_key(id) {
        Ok(m[id])
    } else {
        Err((ErrorKind::SessionNotFound, id))
    }
}

/// No channel id occurs twice in `s`.
spec fn distinct<S>(s: Seq<(String, S)>) -> bool {
    forall|i: int, j: int| 0 <= i < j < s.len() ==> s[i].0@ != s[j].0@
}

/// Whether `id` stands in the list `issued`.
spec fn listed(issued: Seq<String>, id: Seq<char>) -> bool {
    exists|j: int| 0 <= j < issued.len() && issued[j]@ == id
}

/// Every channel id of `s` stands in the list `issued`.
spec fn all_listed<S>(s: Seq<(String, S)>, issued: Seq<String>) -> bool {
    forall|i: int| 0 <= i < s.len() ==> listed(issued, #[trigger] s[i].0@)
}

/// The text of the version 4 UUID that `uuid::Builder::from_random_bytes`
/// makes of the 16 bytes `bytes`.
pub uninterp spec fn uuid_text(bytes: Seq<u8>) -> Seq<char>;

/// Whether `s` has the form of a random UUID in its usual text: 36
/// characters, hyphens at positions 8, 13, 18 and 23, lowercase hexadecimal
/// digits elsewhere, version digit `4`, and a variant digit of `8`, `9`,
/// `a` or `b`.
pub open spec fn is_channel_id(s: Seq<char>) -> bool {
    &&& s.len() == 36
    &&& forall|i: int|
        0 <= i < 36 ==> if i == 8 || i == 13 || i == 18 || i == 23 {
            s[i] == '-'
        } else {
            ('0' <= #[trigger] s[i] <= '9') || ('a' <= s[i] <= 'f')
        }
    &&& s[14] == '4'
    &&& (s[19] == '8' || s[19] == '9' || s[19] == 'a' || s[19] == 'b')
}

/// `uuid::Builder::from_random_bytes` sets the version and variant bits of
/// the 16 bytes to those of a random UUID and leaves the rest; the UUID's
/// `to_string` writes it in hyphenated lowercase form. The text depends on
/// the bytes alone.
#[verifier::external_body]
fn uuid_text_of(bytes: &[u8; 16]) -> (s: String)
    ensures
        s@ == uuid_text(bytes@),
        is_channel_id(s@),
{
    uuid::Builder::from_random_bytes(*bytes).into_uuid().to_string()
}

/// A session that is registered under a new id can be looked up under it,
/// the sessions under other ids stay as they were, and the id, absent
/// before, is present after.
pub proof fn lemma_registered_is_found<S>(m: Map<Seq<char>, S>, id: Seq<char>, session: S)
    requires
        !m.contains_key(id),
    ensures
        lookup(m, id) is Err,
        lookup(m.insert(id, session), id) == Ok::<S, (ErrorKind, Seq<char>)>(session),
        m.insert(id, session).dom() == m.dom().insert(id),
        forall|other: Seq<char>| other != id ==> lookup(m.insert(id, session), other) == lookup(m, other),
{
}

/// Once the session under an id has been taken out, every lookup of that
/// id fails with `SessionNotFound` naming the id, while the sessions under
/// other ids stay as they were.
pub proof fn lemma_removed_is_not_found<S>(m: Map<Seq<char>, S>, id: Seq<char>)
    ensures
        lookup(m.remove(id), id) == Err::<S, (ErrorKind, Seq<char>)>((ErrorKind::SessionNotFound, id)),
        forall|other: Seq<char>| other != id ==> lookup(m.remove(id), other) == lookup(m, other),
{
}

/// Whether `id` stands in `issued`.
fn is_listed(issued: &Vec<String>, id: &String) -> (b: bool)
    ensures
        b == listed(issued@, id@),
{
    let mut j: usize = 0;
    while j < issued.len()
        invariant
            j <= issued.len(),
            forall|k: int| 0 <= k < j ==> issued[k]@ != id@,
        decreases issued.len() - j,
    {
        if issued[j] == *id {
            return true;
        }
        j = j + 1;
    }
    false
}

impl<S> SshManager<S> {
    #[verifier::type_invariant]
    spec fn well_formed(self) -> bool {
        distinct(self.channels@) && all_listed(self.channels@, self.issued@)
    }

    /// Hands out the two lists and leaves the registry empty.
    fn take(&mut self) -> (lists: (Vec<(String, S)>, Vec<String>))
        ensures
            lists.0@ == old(self).channels@,
            lists.1@ == old(self).issued@,
            distinct(lists.0@),
            all_listed(lists.0@, lists.1@),
    {
        proof {
            use_type_invariant(&*self);
        }
        let mut taken = SshManager { channels: Vec::new(), issued: Vec::new() };
        std::mem::swap(self, &mut taken);
        (taken.channels, taken.issued)
    }

    /// The channel ids that the manager has ever held or handed out.
    pub closed spec fn issued(&self) -> Set<Seq<char>> {
        Set::new(|id: Seq<char>| listed(self.issued@, id))
    }

    /// Where `id` stands in the list, if it is registered.
    spec fn position(self, id: Seq<char>) -> int {
        choose|i: int| 0 <= i < self.channels.len() && self.channels[i].0@ == id
    }

    /// The registered sessions as a map from channel id to session.
    pub closed spec fn view(&self) -> Map<Seq<char>, S> {
        Map::new(
            |id: Seq<char>|
                exists|i: int| 0 <= i < self.channels.len() && self.channels[i].0@ == id,
            |id: Seq<char>| self.channels[self.position(id)].1,
        )
    }

    /// The entry at index `i` is what the map holds under its id.
    proof fn lemma_entry(self, i: int)
        requires
            distinct(self.channels@),
            0 <= i < self.channels.len(),
        ensures
            self@.contains_key(self.channels[i].0@),
            self@[self.channels[i].0@] == self.channels[i].1,
            self.position(self.channels[i].0@) == i,
    {
        let id = self.channels[i].0@;
        let p = self.position(id);
        assert(0 <= p < self.channels.len() && self.channels[p].0@ == id);
        if p < i {
            assert(self.channels[p].0@ != self.channels[i].0@);
        } else if i < p {
            assert(self.channels[i].0@ != self.channels[p].0@);
        }
    }

    /// A registry without sessions.
    pub fn new() -> (m: Self)
        ensures
            m@ == Map::<Seq<char>, S>::empty(),
            m.issued() == Set::<Seq<char>>::empty(),
    {
        let m = SshManager { channels: Vec::new(), issued: Vec::new() };
        assert(m@ =~= Map::<Seq<char>, S>::empty());
        assert(m.issued() =~= Set::<Seq<char>>::empty());
        m
    }

    /// Sets aside the channel id that the 16 drawn bytes `bytes` stand for,
    /// unless the manager has held or handed out that id before.
    pub fn reserve_drawn(&mut self, bytes: &[u8; 16]) -> (r: Option<String>)
        ensures
            final(self)@ == old(self)@,
            match r {
                Some(id) => {
                    &&& id@ == uuid_text(bytes@)
                    &&& is_channel_id(id@)
                    &&& !old(self).issued().contains(id@)
                    &&& !old(self)@.contains_key(id@)
                    &&& final(self).issued() == old(self).issued().insert(id@)
                },
                None => {
                    &&& old(self).issued().contains(uuid_text(bytes@))
                    &&& final(self).issued() == old(self).issued()
                },
            },
    {
        proof {
            use_type_invariant(&*self);
        }
        let ghost before = *self;
        let id = uuid_text_of(bytes);
        if is_listed(&self.issued, &id) {
            return None;
        }
        assert(!before@.contains_key(id@)) by {
            if before@.contains_key(id@) {
                let i = before.position(id@);
                assert(listed(before.issued@, before.channels[i].0@));
            }
        }
        let (channels, mut issued) = self.take();
        issued.push(id.clone());
        let ghost n = before.issued.len() as int;
        assert(all_listed(channels@, issued@)) by {
            assert forall|i: int| 0 <= i < channels.len() implies listed(
                issued@,
                #[trigger] channels[i].0@,
            ) by {
                let j = choose|j: int| 0 <= j < n && before.issued[j]@ == channels[i].0@;
                assert(issued[j]@ == channels[i].0@);
            }
        }
        *self = SshManager { channels, issued };
        assert(self@ =~= before@);
        assert(self.issued() =~= before.issued().insert(id@)) by {
            assert forall|k: Seq<char>| self.issued().contains(k) <==> before.issued().insert(
                id@,
            ).contains(k) by {
                if listed(self.issued@, k) {
                    let j = choose|j: int| 0 <= j < self.issued.len() && self.issued[j]@ == k;
                    if j < n {
                        assert(before.issued[j]@ == k);
                    }
                }
                if listed(before.issued@, k) {
                    let j = choose|j: int| 0 <= j < n && before.issued[j]@ == k;
                    assert(self.issued[j]@ == k);
                }
                if k == id@ {
                    assert(self.issued[n]@ == k);
                }
            }
        }
        Some(id)
    }

    /// Draws a channel id at random and sets it aside for a new session.
    /// The id is one that the manager has never held or handed out. There
    /// is none where the system gives no random bytes, or where the draw
    /// gives an id a second time.
    pub fn reserve(&mut self) -> (r: Result<String, SshError>)
        ensures
            final(self)@ == old(self)@,
            match r {
                Ok(id) => {
                    &&& is_channel_id(id@)
                    &&& !old(self).issued().contains(id@)
                    &&& !old(self)@.contains_key(id@)
                    &&& final(self).issued() == old(self).issued().insert(id@)
                },
                Err(e) => {
                    &&& final(self).issued() == old(self).issued()
                    &&& (e@ == (ErrorKind::ConnectionFailed, "No random bytes for a channel id"@)
                        || e@ == (ErrorKind::ConnectionFailed, "Channel id drawn twice"@))
                },
            },
    {
        let drawn = match random_bytes(16) {
            Ok(drawn) => drawn,
            Err(_) => {
                return Err(
                    SshError::ConnectionFailed(String::from_str("No random bytes for a channel id")),
                );
            },
        };
        let mut bytes = [0u8; 16];
        let mut i: usize = 0;
        while i < 16
            invariant
                i <= 16,
                drawn.len() == 16,
            decreases 16 - i,
        {
            bytes[i] = drawn[i];
            i = i + 1;
        }
        match self.reserve_drawn(&bytes) {
            Some(id) => Ok(id),
            None => Err(SshError::ConnectionFailed(String::from_str("Channel id drawn twice"))),
        }
    }

    /// Carries out on the registry what the reader of a session asks for:
    /// when it declares the session closed, the session is taken out and
    /// handed over; any other effect leaves the registry as it is.
    pub fn reader_effect(&mut self, effect: &Effect) -> (r: Option<S>)
        ensures
            final(self).issued() == old(self).issued(),
            match effect@ {
                EffectView::Closed { channel_id } => {
                    &&& final(self)@ == old(self)@.remove(channel_id)
                    &&& match r {
                        Some(s) => lookup(old(self)@, channel_id) == Ok::<S, (ErrorKind, Seq<char>)>(
                            s,
                        ),
                        None => !old(self)@.contains_key(channel_id),
                    }
                },
                _ => final(self)@ == old(self)@ && r is None,
            },
    {
        match effect {
            Effect::Closed { channel_id } => self.remove(channel_id.as_str()),
            _ => None,
        }
    }

    /// The index of `id` in the list.
    fn find(&self, id: &str) -> (r: Option<usize>)
        ensures
            match r {
                Some(i) => i < self.channels.len() && self.channels[i as int].0@ == id@,
                None => !self@.contains_key(id@),
            },
    {
        let key = id.to_owned();
        let mut i: usize = 0;
        while i < self.channels.len()
            invariant
                i <= self.channels.len(),
                key@ == id@,
                forall|j: int| 0 <= j < i ==> self.channels[j].0@ != id@,
            decreases self.channels.len() - i,
        {
            if self.channels[i].0 == key {
                return Some(i);
            }
            i = i + 1;
        }
        None
    }

    /// Whether a session is registered under `id`.
    pub fn contains(&self, id: &str) -> (b: bool)
        ensures
            b == self@.contains_key(id@),
    {
        proof {
            use_type_invariant(self);
        }
        match self.find(id) {
            Some(i) => {
                proof {
                    self.lemma_entry(i as int);
                }
                true
            },
            None => false,
        }
    }

    /// The session registered under `id`, or `SessionNotFound` naming `id`
    /// where there is none.
    pub fn get(&self, id: &str) -> (r: Result<&S, SshError>)
        ensures
            match r {
                Ok(s) => lookup(self@, id@) == Ok::<S, (ErrorKind, Seq<char>)>(*s),
                Err(e) => lookup(self@, id@) == Err::<S, (ErrorKind, Seq<char>)>(e@),
            },
    {
        proof {
            use_type_invariant(self);
        }
        match self.find(id) {
            Some(i) => {
                proof {
                    self.lemma_entry(i as int);
                }
                Ok(&self.channels[i].1)
            },
            None => Err(SshError::SessionNotFound(id.to_owned())),
        }
    }

    /// The session whose SFTP subsystem a verb is to use, or
    /// `SessionNotFound` naming `channel_id` where none is registered.
    pub fn get_sftp(&self, channel_id: &str) -> (r: Result<&S, SshError>)
        ensures
            match r {
                Ok(s) => lookup(self@, channel_id@) == Ok::<S, (ErrorKind, Seq<char>)>(*s),
                Err(e) => lookup(self@, channel_id@) == Err::<S, (ErrorKind, Seq<char>)>(e@),
            },
    {
        self.get(channel_id)
    }

    /// What sending `data` to the session under `channel_id` takes: the
    /// session and the operations to perform on it, or `SessionNotFound`.
    pub fn send_command(&self, channel_id: &str, data: &str) -> (r: Result<(&S, Script), SshError>)
        ensures
            match r {
                Ok((s, script)) => {
                    &&& lookup(self@, channel_id@) == Ok::<S, (ErrorKind, Seq<char>)>(*s)
                    &&& script@ == script_of(Verb::Send, send_ops(), data.spec_bytes())
                },
                Err(e) => lookup(self@, channel_id@) == Err::<S, (ErrorKind, Seq<char>)>(e@),
            },
    {
        match self.get(channel_id) {
            Ok(s) => Ok((s, Script::send(data))),
            Err(e) => Err(e),
        }
    }

    /// What resizing the terminal of the session under `channel_id` takes:
    /// the session and the operations to perform on it, or
    /// `SessionNotFound`.
    pub fn resize(&self, channel_id: &str, cols: u16, rows: u16) -> (r: Result<
        (&S, Script),
        SshError,
    >)
        ensures
            match r {
                Ok((s, script)) => {
                    &&& lookup(self@, channel_id@) == Ok::<S, (ErrorKind, Seq<char>)>(*s)
                    &&& script@ == script_of(Verb::Resize, resize_ops(cols, rows), Seq::empty())
                },
                Err(e) => lookup(self@, channel_id@) == Err::<S, (ErrorKind, Seq<char>)>(e@),
            },
    {
        match self.get(channel_id) {
            Ok(s) => Ok((s, Script::resize(cols, rows))),
            Err(e) => Err(e),
        }
    }

    /// Takes the session under `channel_id` out of the registry and hands
    /// it over with the operations that shut it down, or fails with
    /// `SessionNotFound` naming `channel_id` where none is registered.
    pub fn disconnect(&mut self, channel_id: &str) -> (r: Result<(S, Script), SshError>)
        ensures
            final(self)@ == old(self)@.remove(channel_id@),
            final(self).issued() == old(self).issued(),
            match r {
                Ok((s, script)) => {
                    &&& lookup(old(self)@, channel_id@) == Ok::<S, (ErrorKind, Seq<char>)>(s)
                    &&& script@ == script_of(Verb::Shutdown, shutdown_ops(), Seq::empty())
                },
                Err(e) => lookup(old(self)@, channel_id@) == Err::<S, (ErrorKind, Seq<char>)>(e@),
            },
    {
        match self.remove(channel_id) {
            Some(s) => Ok((s, Script::shutdown())),
            None => Err(SshError::SessionNotFound(channel_id.to_owned())),
        }
    }

    /// Registers `session` under `id`. A session already held under `id` is
    /// dropped in its favour.
    pub fn insert(&mut self, id: String, session: S)
        ensures
            final(self)@ == old(self)@.insert(id@, session),
            final(self).issued() == old(self).issued().insert(id@),
    {
        proof {
            use_type_invariant(&*self);
        }
        let ghost before = *self;
        let ghost key = id@;
        let found = self.find(id.as_str());
        let known = is_listed(&self.issued, &id);
        let (mut channels, mut issued) = self.take();
        if !known {
            issued.push(id.clone());
        }
        let ghost n0 = before.issued.len() as int;
        assert(listed(issued@, key)) by {
            if known {
                let j = choose|j: int| 0 <= j < n0 && before.issued[j]@ == key;
                assert(issued[j]@ == key);
            } else {
                assert(issued[n0]@ == key);
            }
        }
        assert forall|k: Seq<char>| listed(before.issued@, k) implies listed(issued@, k) by {
            let j = choose|j: int| 0 <= j < n0 && before.issued[j]@ == k;
            assert(issued[j]@ == k);
        }
        assert forall|k: Seq<char>| listed(issued@, k) implies listed(before.issued@, k) || k
            == key by {
            let j = choose|j: int| 0 <= j < issued.len() && issued[j]@ == k;
            if j < n0 {
                assert(before.issued[j]@ == k);
            }
        }
        match found {
            Some(i) => {
                channels.set(i, (id, session));
                assert(distinct(channels@)) by {
                    assert forall|a: int, b: int| 0 <= a < b < channels.len() implies channels[a].0@
                        != channels[b].0@ by {
                        assert(before.channels[a].0@ != before.channels[b].0@);
                    }
                }
                assert(all_listed(channels@, issued@)) by {
                    assert forall|a: int| 0 <= a < channels.len() implies listed(
                        issued@,
                        #[trigger] channels[a].0@,
                    ) by {
                        assert(listed(before.issued@, before.channels[a].0@));
                    }
                }
                *self = SshManager { channels, issued };
                assert(self.issued() =~= before.issued().insert(key));
                assert(self@ =~= before@.insert(key, session)) by {
                    assert forall|k: Seq<char>| self@.contains_key(k) <==> before@.insert(
                        key,
                        session,
                    ).contains_key(k) by {
                        if self@.contains_key(k) {
                            let p = self.position(k);
                            assert(before.channels[p].0@ == k);
                        }
                        if before@.contains_key(k) {
                            let p = before.position(k);
                            assert(self.channels[p].0@ == k);
                        }
                        if k == key {
                            assert(self.channels[i as int].0@ == k);
                        }
                    }
                    assert forall|k: Seq<char>| self@.contains_key(k) implies self@[k]
                        == before@.insert(key, session)[k] by {
                        let p = self.position(k);
                        self.lemma_entry(p);
                        before.lemma_entry(p);
                    }
                }
            },
            None => {
                channels.push((id, session));
                let ghost n = before.channels.len() as int;
                assert(distinct(channels@)) by {
                    assert forall|a: int, b: int| 0 <= a < b < channels.len() implies channels[a].0@
                        != channels[b].0@ by {
                        if b < n {
                            assert(before.channels[a].0@ != before.channels[b].0@);
                        } else {
                            assert(before.channels[a].0@ != key);
                        }
                    }
                }
                assert(all_listed(channels@, issued@)) by {
                    assert forall|a: int| 0 <= a < channels.len() implies listed(
                        issued@,
                        #[trigger] channels[a].0@,
                    ) by {
                        if a < n {
                            assert(listed(before.issued@, before.channels[a].0@));
                        }
                    }
                }
                *self = SshManager { channels, issued };
                assert(self.issued() =~= before.issued().insert(key));
                assert(self@ =~= before@.insert(key, session)) by {
                    assert forall|k: Seq<char>| self@.contains_key(k) <==> before@.insert(
                        key,
                        session,
                    ).contains_key(k) by {
                        if self@.contains_key(k) {
                            let p = self.position(k);
                            if p < n {
                                assert(before.channels[p].0@ == k);
                            }
                        }
                        if before@.contains_key(k) {
                            let p = before.position(k);
                            assert(self.channels[p].0@ == k);
                        }
                        if k == key {
                            assert(self.channels[n].0@ == k);
                        }
                    }
                    assert forall|k: Seq<char>| self@.contains_key(k) implies self@[k]
                        == before@.insert(key, session)[k] by {
                        let p = self.position(k);
                        self.lemma_entry(p);
                        if p < n {
                            before.lemma_entry(p);
                        }
                    }
                }
            },
        }
    }

    /// Takes the session registered under `id` out of the registry, if
    /// there is one.
    pub fn remove(&mut self, id: &str) -> (r: Option<S>)
        ensures
            final(self)@ == old(self)@.remove(id@),
            final(self).issued() == old(self).issued(),
            match r {
                Some(s) => lookup(old(self)@, id@) == Ok::<S, (ErrorKind, Seq<char>)>(s),
                None => !old(self)@.contains_key(id@),
            },
    {
        proof {
            use_type_invariant(&*self);
        }
        let ghost before = *self;
        let found = self.find(id);
        let (mut channels, issued) = self.take();
        match found {
            Some(i) => {
                proof {
                    before.lemma_entry(i as int);
                }
                let (_, session) = channels.remove(i);
                assert(distinct(channels@)) by {
                    assert forall|a: int, b: int| 0 <= a < b < channels.len() implies channels[a].0@
                        != channels[b].0@ by {
                        let a0 = if a < i { a } else { a + 1 };
                        let b0 = if b < i { b } else { b + 1 };
                        assert(before.channels[a0].0@ != before.channels[b0].0@);
                    }
                }
                assert(all_listed(channels@, issued@)) by {
                    assert forall|a: int| 0 <= a < channels.len() implies listed(
                        issued@,
                        #[trigger] channels[a].0@,
                    ) by {
                        let a0 = if a < i { a } else { a + 1 };
                        assert(listed(before.issued@, before.channels[a0].0@));
                    }
                }
                *self = SshManager { channels, issued };
                assert(self.issued() =~= before.issued());
                assert(self@ =~= before@.remove(id@)) by {
                    assert forall|k: Seq<char>| self@.contains_key(k) <==> before@.remove(
                        id@,
                    ).contains_key(k) by {
                        if self@.contains_key(k) {
                            let p = self.position(k);
                            let p0 = if p < i { p } else { p + 1 };
                            assert(before.channels[p0].0@ == k);
                            assert(before.channels[p0].0@ != before.channels[i as int].0@);
                        }
                        if before@.contains_key(k) && k != id@ {
                            let p0 = before.position(k);
                            let p = if p0 < i { p0 } else { p0 - 1 };
                            assert(self.channels[p].0@ == k);
                        }
                    }
                    assert forall|k: Seq<char>| self@.contains_key(k) implies self@[k]
                        == before@.remove(id@)[k] by {
                        let p = self.position(k);
                        let p0 = if p < i { p } else { p + 1 };
                        self.lemma_entry(p);
                        before.lemma_entry(p0);
                    }
                }
                Some(session)
            },
            None => {
                *self = SshManager { channels, issued };
                assert(self@ =~= before@.remove(id@));
                assert(self.issued() =~= before.issued());
                None
            },
        }
    }
}

} // verus!
