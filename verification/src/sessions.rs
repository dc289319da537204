//! The open sessions, by their keys.

use crate::keys::{is_session_key, valid_session_key};
use crate::packets::{is_rpc_packet, RpcPacketCodes};
use crate::queue::{answers, offers};
use crate::service::{is_addressed, CallError, ScopedCall};
use crate::session::{
    is_drain, is_push, is_shutdown, lemma_drains_ask_until_nothing_is_left,
    NearbyManagementSession, NearbyRole, SessionEnds, ShutdownWork,
};
use crate::text::same_text;
use serde_json::Value;
use vstd::prelude::*;

verus! {

/// How many sessions may be open at a time.
pub const MAX_NEARBY_SESSIONS: usize = 8;

/// What a session is opened on, once its transport is there: the session's ends of its
/// queues, the tasks that serve the other ends, and on a client's end something to call
/// with.
pub struct Established<Rpc, Task> {
    pub rpc: Option<Rpc>,
    pub ends: SessionEnds,
    pub inbound_task: Task,
    pub outbound_task: Task,
}

impl<Rpc, Task> Established<Rpc, Task> {
    /// Whether this is enough for the given end of a session.
    pub open spec fn serves(self, role: NearbyRole) -> bool {
        role == NearbyRole::Client ==> self.rpc is Some
    }

    /// Whether `session` is a new session of the given end on this: only a client's end
    /// calls.
    pub open spec fn is_base_of(
        self,
        role: NearbyRole,
        session: NearbyManagementSession<Rpc, Task>,
    ) -> bool {
        session.is_opened(
            role,
            if role == NearbyRole::Client {
                self.rpc
            } else {
                None
            },
            self.ends,
            self.inbound_task,
            self.outbound_task,
        )
    }
}

struct OpenSession<Rpc, Task> {
    key: String,
    session: NearbyManagementSession<Rpc, Task>,
}

/// The open sessions.
pub struct NearbySessions<Rpc, Task> {
    entries: Vec<OpenSession<Rpc, Task>>,
}

spec fn table_of<Rpc, Task>(entries: Seq<OpenSession<Rpc, Task>>) -> Map<
    Seq<char>,
    NearbyManagementSession<Rpc, Task>,
>
    decreases entries.len(),
{
    if entries.len() == 0 {
        Map::empty()
    } else {
        table_of(entries.drop_last()).insert(entries.last().key@, entries.last().session)
    }
}

/// No two entries have the same key.
spec fn have_distinct_keys<Rpc, Task>(entries: Seq<OpenSession<Rpc, Task>>) -> bool {
    forall|i: int, j: int|
        0 <= i < j < entries.len() ==> #[trigger] entries[i].key@ != #[trigger] entries[j].key@
}

proof fn lemma_table<Rpc, Task>(entries: Seq<OpenSession<Rpc, Task>>)
    requires
        have_distinct_keys(entries),
    ensures
        table_of(entries).dom().finite(),
        table_of(entries).len() == entries.len(),
        forall|i: int|
            0 <= i < entries.len() ==> table_of(entries).contains_key(#[trigger] entries[i].key@)
                && table_of(entries)[entries[i].key@] == entries[i].session,
        forall|key: Seq<char>| #[trigger]
            table_of(entries).contains_key(key) ==> exists|i: int|
                0 <= i < entries.len() && #[trigger] entries[i].key@ == key,
    decreases entries.len(),
{
    if entries.len() > 0 {
        let front = entries.drop_last();
        lemma_table(front);
        if table_of(front).contains_key(entries.last().key@) {
            let i = choose|i: int|
                0 <= i < front.len() && #[trigger] front[i].key@ == entries.last().key@;
            assert(entries[i].key@ == entries[entries.len() - 1].key@);
        }
        assert forall|i: int| 0 <= i < entries.len() implies table_of(entries).contains_key(
            #[trigger] entries[i].key@,
        ) && table_of(entries)[entries[i].key@] == entries[i].session by {
            if i < front.len() {
                assert(front[i].key@ == entries[i].key@);
            }
        }
        assert forall|key: Seq<char>| #[trigger] table_of(entries).contains_key(key) implies exists|
            i: int,
        | 0 <= i < entries.len() && #[trigger] entries[i].key@ == key by {
            if key == entries.last().key@ {
                assert(entries[entries.len() - 1].key@ == key);
            } else {
                let i = choose|i: int| 0 <= i < front.len() && #[trigger] front[i].key@ == key;
                assert(entries[i].key@ == key);
            }
        }
    }
}

/// Without the entry at place `i`, the table lacks its key and nothing else.
proof fn lemma_table_without<Rpc, Task>(entries: Seq<OpenSession<Rpc, Task>>, i: int)
    requires
        have_distinct_keys(entries),
        0 <= i < entries.len(),
    ensures
        have_distinct_keys(entries.remove(i)),
        table_of(entries.remove(i)) == table_of(entries).remove(entries[i].key@),
{
    let rest = entries.remove(i);
    let key = entries[i].key@;
    assert forall|a: int, b: int| 0 <= a < b < rest.len() implies #[trigger] rest[a].key@
        != #[trigger] rest[b].key@ by {
        let a2 = if a < i { a } else { a + 1 };
        let b2 = if b < i { b } else { b + 1 };
        assert(entries[a2].key@ != entries[b2].key@);
    }
    lemma_table(entries);
    lemma_table(rest);
    let whole = table_of(entries).remove(key);
    assert forall|k: Seq<char>| #[trigger] whole.contains_key(k) implies table_of(
        rest,
    ).contains_key(k) && table_of(rest)[k] == whole[k] by {
        assert(table_of(entries).contains_key(k));
        let j = choose|j: int| 0 <= j < entries.len() && #[trigger] entries[j].key@ == k;
        let j2 = if j < i { j } else { j - 1 };
        assert(rest[j2] == entries[j]);
        assert(rest[j2].key@ == k);
    }
    assert forall|k: Seq<char>| #[trigger] table_of(rest).contains_key(k) implies whole.contains_key(
        k,
    ) by {
        let j = choose|j: int| 0 <= j < rest.len() && #[trigger] rest[j].key@ == k;
        let j2 = if j < i { j } else { j + 1 };
        assert(rest[j] == entries[j2]);
        assert(entries[j2].key@ == k);
        assert(entries[j2].key@ != entries[i].key@);
    }
    assert(table_of(rest) =~= whole);
}

/// One more entry, under a key that has none, is one more entry of the table.
proof fn lemma_table_with<Rpc, Task>(
    entries: Seq<OpenSession<Rpc, Task>>,
    entry: OpenSession<Rpc, Task>,
)
    requires
        have_distinct_keys(entries),
        !table_of(entries).contains_key(entry.key@),
    ensures
        have_distinct_keys(entries.push(entry)),
        table_of(entries.push(entry)) == table_of(entries).insert(entry.key@, entry.session),
{
    lemma_table(entries);
    let more = entries.push(entry);
    assert(more.drop_last() =~= entries);
    assert forall|i: int, j: int| 0 <= i < j < more.len() implies #[trigger] more[i].key@
        != #[trigger] more[j].key@ by {
        assert(entries[i].key@ == more[i].key@);
        if j < entries.len() {
            assert(entries[j].key@ == more[j].key@);
        }
    }
}

impl<Rpc, Task> View for NearbySessions<Rpc, Task> {
    type V = Map<Seq<char>, NearbyManagementSession<Rpc, Task>>;

    closed spec fn view(&self) -> Map<Seq<char>, NearbyManagementSession<Rpc, Task>> {
        table_of(self.entries@)
    }
}

/// Whether a session may be opened under `key` next to those that are open.
pub open spec fn has_room_for<Rpc, Task>(
    open: Map<Seq<char>, NearbyManagementSession<Rpc, Task>>,
    key: Seq<char>,
) -> bool {
    is_session_key(key) && !open.contains_key(key) && open.len() < MAX_NEARBY_SESSIONS
}

impl<Rpc, Task> NearbySessions<Rpc, Task> {
    spec fn holds_at(self, i: int, key: Seq<char>) -> bool {
        0 <= i < self.entries@.len() && self.entries@[i].key@ == key
    }

    /// Whether each key stands for one session.
    pub closed spec fn is_table(self) -> bool {
        have_distinct_keys(self.entries@)
    }

    /// There are never more sessions than may be open, each has a valid key, and none has
    /// been shut down.
    pub open spec fn well_formed(self) -> bool {
        &&& self.is_table()
        &&& self@.dom().finite()
        &&& self@.len() <= MAX_NEARBY_SESSIONS
        &&& forall|key: Seq<char>| #[trigger]
            self@.contains_key(key) ==> is_session_key(key) && self@[key].is_open()
    }

    /// No open session.
    pub fn new() -> (sessions: Self)
        ensures
            sessions@ == Map::<Seq<char>, NearbyManagementSession<Rpc, Task>>::empty(),
            sessions.well_formed(),
    {
        NearbySessions { entries: Vec::new() }
    }

    fn place_of(&self, session_key: &str) -> (place: Option<usize>)
        requires
            self.is_table(),
        ensures
            match place {
                Some(i) => self.holds_at(i as int, session_key@) && self@.contains_key(session_key@)
                    && self@[session_key@] == self.entries@[i as int].session,
                None => !self@.contains_key(session_key@),
            },
    {
        proof {
            lemma_table(self.entries@);
        }
        let mut i: usize = 0;
        while i < self.entries.len()
            invariant
                i <= self.entries@.len(),
                self.is_table(),
                forall|j: int| 0 <= j < i ==> #[trigger] self.entries@[j].key@ != session_key@,
                forall|j: int|
                    0 <= j < self.entries@.len() ==> self@.contains_key(
                        #[trigger] self.entries@[j].key@,
                    ) && self@[self.entries@[j].key@] == self.entries@[j].session,
            decreases self.entries.len() - i,
        {
            if same_text(self.entries[i].key.as_str(), session_key) {
                return Some(i);
            }
            i += 1;
        }
        None
    }

    /// The session that is open under a key.
    pub fn session(&self, session_key: &str) -> (found: Option<&NearbyManagementSession<Rpc, Task>>)
        requires
            self.well_formed(),
        ensures
            match found {
                Some(session) => self@.contains_key(session_key@) && *session
                    == self@[session_key@],
                None => !self@.contains_key(session_key@),
            },
    {
        match self.place_of(session_key) {
            Some(i) => Some(&self.entries[i].session),
            None => None,
        }
    }

    /// Takes the session out that is open under a key.
    fn take(&mut self, session_key: &str) -> (taken: Option<OpenSession<Rpc, Task>>)
        requires
            old(self).well_formed(),
        ensures
            match taken {
                Some(entry) => old(self)@.contains_key(session_key@) && entry.key@ == session_key@
                    && entry.session == old(self)@[session_key@],
                None => !old(self)@.contains_key(session_key@),
            },
            final(self)@ == old(self)@.remove(session_key@),
            taken is None ==> final(self)@ == old(self)@,
            final(self).well_formed(),
    {
        match self.place_of(session_key) {
            Some(i) => {
                proof {
                    lemma_table_without(self.entries@, i as int);
                }
                Some(self.entries.remove(i))
            },
            None => {
                assert(self@.remove(session_key@) =~= self@);
                None
            },
        }
    }

    /// Puts a session in under a key that has none.
    fn put(&mut self, entry: OpenSession<Rpc, Task>)
        requires
            old(self).well_formed(),
            has_room_for(old(self)@, entry.key@),
            entry.session.is_open(),
        ensures
            final(self)@ == old(self)@.insert(entry.key@, entry.session),
            final(self).well_formed(),
    {
        proof {
            lemma_table_with(self.entries@, entry);
        }
        self.entries.push(entry);
    }
}

/// The end of a session that is to be established under a key, if one is.
pub open spec fn role_to_open(key: Seq<char>, host: bool) -> Option<NearbyRole> {
    if !is_session_key(key) {
        None
    } else if host {
        Some(NearbyRole::HostProxy)
    } else {
        Some(NearbyRole::Client)
    }
}

/// The end of a session that is to be established, where the key may name one.
pub fn open_nearby_management_session(session_key: &str, host: bool) -> (role: Option<NearbyRole>)
    ensures
        role == role_to_open(session_key@, host),
        role == (if !is_session_key(session_key@) {
            None
        } else if host {
            Some(NearbyRole::HostProxy)
        } else {
            Some(NearbyRole::Client)
        }),
{
    if !valid_session_key(session_key) {
        return None;
    }
    if host {
        Some(NearbyRole::HostProxy)
    } else {
        Some(NearbyRole::Client)
    }
}

/// Whether the table goes from `before` to `after` when a session is opened.
pub open spec fn is_open_call<Rpc, Task>(
    before: Map<Seq<char>, NearbyManagementSession<Rpc, Task>>,
    after: Map<Seq<char>, NearbyManagementSession<Rpc, Task>>,
    key: Seq<char>,
    role: NearbyRole,
    established: Option<Established<Rpc, Task>>,
    opened: bool,
) -> bool {
    &&& opened <==> established is Some && established->0.serves(role) && has_room_for(before, key)
    &&& if opened {
        established->0.is_base_of(role, after[key]) && after == before.insert(key, after[key])
    } else {
        after == before
    }
}

/// Whether the table goes from `before` to `after` when the session under a key is closed.
pub open spec fn is_close_call<Rpc, Task>(
    before: Map<Seq<char>, NearbyManagementSession<Rpc, Task>>,
    after: Map<Seq<char>, NearbyManagementSession<Rpc, Task>>,
    key: Seq<char>,
    removed: Option<(NearbyManagementSession<Rpc, Task>, ShutdownWork<Task>)>,
) -> bool {
    &&& after == before.remove(key)
    &&& match removed {
        Some((session, work)) => before.contains_key(key) && is_shutdown(
            before[key],
            session,
            work,
        ),
        None => !before.contains_key(key),
    }
}

/// Whether the table goes from `before` to `after` when the session under a key is given a
/// packet.
pub open spec fn is_push_call<Rpc, Task>(
    before: Map<Seq<char>, NearbyManagementSession<Rpc, Task>>,
    after: Map<Seq<char>, NearbyManagementSession<Rpc, Task>>,
    key: Seq<char>,
    bytes: Seq<u8>,
    packet_type: Option<u8>,
    codes: RpcPacketCodes,
    pushed: bool,
) -> bool {
    if before.contains_key(key) {
        &&& is_push(before[key], after[key], bytes, packet_type, codes, pushed)
        &&& after == before.insert(key, after[key])
    } else {
        !pushed && after == before
    }
}

/// Whether the table goes from `before` to `after` when the session under a key hands out
/// packets.
pub open spec fn is_drain_call<Rpc, Task>(
    before: Map<Seq<char>, NearbyManagementSession<Rpc, Task>>,
    after: Map<Seq<char>, NearbyManagementSession<Rpc, Task>>,
    key: Seq<char>,
    packets: Seq<Vec<u8>>,
) -> bool {
    if before.contains_key(key) {
        &&& is_drain(before[key], after[key], packets)
        &&& after == before.insert(key, after[key])
    } else {
        packets.len() == 0 && after == before
    }
}

/// Opens a new session of the given end under a key, where it was established, the key
/// is valid and free, and not too many sessions are open.
pub fn open_session<Rpc, Task>(
    sessions: &mut NearbySessions<Rpc, Task>,
    session_key: String,
    role: NearbyRole,
    established: Option<Established<Rpc, Task>>,
) -> (opened: bool)
    requires
        old(sessions).well_formed(),
    ensures
        is_open_call(
            old(sessions)@,
            final(sessions)@,
            session_key@,
            role,
            established,
            opened,
        ),
        opened <==> {
            &&& established is Some
            &&& established->0.serves(role)
            &&& has_room_for(old(sessions)@, session_key@)
        },
        opened <==> {
            &&& established is Some
            &&& role == NearbyRole::Client ==> established->0.rpc is Some
            &&& is_session_key(session_key@)
            &&& !old(sessions)@.contains_key(session_key@)
            &&& old(sessions)@.len() < 8
        },
        opened ==> {
            let stored = final(sessions)@[session_key@]@;
            &&& stored.role == role
            &&& role == NearbyRole::Client ==> stored.rpc == established->0.rpc
            &&& role == NearbyRole::HostProxy ==> stored.rpc is None
            &&& stored.inbound == Some(established->0.ends.inbound)
            &&& stored.outbound == established->0.ends.outbound
            &&& stored.tasks == seq![established->0.inbound_task, established->0.outbound_task]
            &&& !stored.closed
        },
        if opened {
            &&& established->0.is_base_of(role, final(sessions)@[session_key@])
            &&& final(sessions)@ == old(sessions)@.insert(
                session_key@,
                final(sessions)@[session_key@],
            )
        } else {
            final(sessions)@ == old(sessions)@
        },
        final(sessions).well_formed(),
{
    if !valid_session_key(session_key.as_str()) {
        return false;
    }
    let base = match established {
        Some(base) => base,
        None => return false,
    };
    let session = match role {
        NearbyRole::Client => match base.rpc {
            Some(rpc) => NearbyManagementSession::client(
                rpc,
                base.ends,
                base.inbound_task,
                base.outbound_task,
            ),
            None => return false,
        },
        NearbyRole::HostProxy => NearbyManagementSession::host_proxy(
            base.ends,
            base.inbound_task,
            base.outbound_task,
        ),
    };
    proof {
        lemma_table(sessions.entries@);
    }
    if sessions.place_of(session_key.as_str()).is_some() || sessions.entries.len()
        >= MAX_NEARBY_SESSIONS {
        return false;
    }
    sessions.put(OpenSession { key: session_key, session });
    true
}

/// Closes the session that is open under a key: takes it out and shuts it down, and
/// hands over what is left to do for it.
pub fn close_nearby_management_session<Rpc, Task>(
    sessions: &mut NearbySessions<Rpc, Task>,
    session_key: &str,
) -> (removed: Option<(NearbyManagementSession<Rpc, Task>, ShutdownWork<Task>)>)
    requires
        old(sessions).well_formed(),
    ensures
        is_close_call(old(sessions)@, final(sessions)@, session_key@, removed),
        match removed {
            Some((session, work)) => {
                &&& old(sessions)@.contains_key(session_key@)
                &&& is_shutdown(old(sessions)@[session_key@], session, work)
                &&& session@.closed
                &&& session@.inbound is None
                &&& work.tasks@ == old(sessions)@[session_key@]@.tasks
                &&& work.stop_rpc <==> old(sessions)@[session_key@]@.role == NearbyRole::Client
            },
            None => !old(sessions)@.contains_key(session_key@),
        },
        final(sessions)@ == old(sessions)@.remove(session_key@),
        final(sessions).well_formed(),
{
    match sessions.take(session_key) {
        Some(entry) => {
            let mut session = entry.session;
            let work = session.shutdown();
            Some((session, work))
        },
        None => None,
    }
}

/// Puts a packet into the queue of the session that is open under a key.
pub fn push_nearby_management_packet<Rpc, Task>(
    sessions: &mut NearbySessions<Rpc, Task>,
    session_key: &str,
    packet: Vec<u8>,
    packet_type: Option<u8>,
    codes: RpcPacketCodes,
) -> (pushed: bool)
    requires
        old(sessions).well_formed(),
    ensures
        is_push_call(
            old(sessions)@,
            final(sessions)@,
            session_key@,
            packet@,
            packet_type,
            codes,
            pushed,
        ),
        if old(sessions)@.contains_key(session_key@) {
            &&& is_push(
                old(sessions)@[session_key@],
                final(sessions)@[session_key@],
                packet@,
                packet_type,
                codes,
                pushed,
            )
            &&& final(sessions)@ == old(sessions)@.insert(
                session_key@,
                final(sessions)@[session_key@],
            )
        } else {
            !pushed && final(sessions)@ == old(sessions)@
        },
        final(sessions).well_formed(),
{
    match sessions.take(session_key) {
        Some(entry) => {
            let mut entry = entry;
            let pushed = entry.session.push_packet(packet, packet_type, codes);
            sessions.put(entry);
            assert(sessions@ =~= old(sessions)@.insert(session_key@, entry.session));
            pushed
        },
        None => false,
    }
}

/// The packets that have come from the transport of the session that is open under a
/// key.
pub fn drain_nearby_management_packets<Rpc, Task>(
    sessions: &mut NearbySessions<Rpc, Task>,
    session_key: &str,
) -> (packets: Vec<Vec<u8>>)
    requires
        old(sessions).well_formed(),
    ensures
        is_drain_call(old(sessions)@, final(sessions)@, session_key@, packets@),
        if old(sessions)@.contains_key(session_key@) {
            &&& is_drain(
                old(sessions)@[session_key@],
                final(sessions)@[session_key@],
                packets@,
            )
            &&& final(sessions)@ == old(sessions)@.insert(
                session_key@,
                final(sessions)@[session_key@],
            )
        } else {
            packets@.len() == 0 && final(sessions)@ == old(sessions)@
        },
        final(sessions).well_formed(),
{
    match sessions.take(session_key) {
        Some(entry) => {
            let mut entry = entry;
            let packets = entry.session.drain_packets();
            sessions.put(entry);
            assert(sessions@ =~= old(sessions)@.insert(session_key@, entry.session));
            packets
        },
        None => Vec::new(),
    }
}

/// Closing a session undoes its opening.
pub proof fn lemma_close_undoes_open<Rpc, Task>(
    open: Map<Seq<char>, NearbyManagementSession<Rpc, Task>>,
    key: Seq<char>,
    session: NearbyManagementSession<Rpc, Task>,
)
    requires
        has_room_for(open, key),
    ensures
        open.insert(key, session).remove(key) == open,
{
    assert(open.insert(key, session).remove(key) =~= open);
}

/// A key names one session: while it is open, no other opens under its key.
pub proof fn lemma_open_keys_are_taken<Rpc, Task>(
    open: Map<Seq<char>, NearbyManagementSession<Rpc, Task>>,
    key: Seq<char>,
    session: NearbyManagementSession<Rpc, Task>,
)
    ensures
        !has_room_for(open.insert(key, session), key),
{
}

/// Closing a session makes room for another one under the same key.
pub proof fn lemma_closing_makes_room<Rpc, Task>(
    sessions: NearbySessions<Rpc, Task>,
    key: Seq<char>,
)
    requires
        sessions.well_formed(),
        sessions@.contains_key(key),
    ensures
        has_room_for(sessions@.remove(key), key),
{
}

/// A session in the table takes every request and response of an admissible size, as
/// far as it has a say, and nothing else.
pub proof fn lemma_open_sessions_take_rpc_packets<Rpc, Task>(
    sessions: NearbySessions<Rpc, Task>,
    key: Seq<char>,
    bytes: Seq<u8>,
    packet_type: Option<u8>,
    codes: RpcPacketCodes,
)
    requires
        sessions.well_formed(),
        sessions@.contains_key(key),
    ensures
        sessions@[key].takes(bytes, packet_type, codes) <==> is_rpc_packet(
            bytes,
            packet_type,
            codes,
        ),
{
}

/// A client in the table can always call: no call of it fails for want of something to
/// call with.
pub proof fn lemma_open_clients_can_call<Rpc, Task>(
    sessions: NearbySessions<Rpc, Task>,
    key: Seq<char>,
    service_name: Seq<char>,
    method_name: Seq<char>,
    domain_name: Seq<char>,
    payload: Value,
    call: Result<ScopedCall, CallError>,
)
    requires
        sessions.well_formed(),
        sessions@.contains_key(key),
        sessions@[key].answers_call(service_name, method_name, domain_name, payload, call),
    ensures
        sessions@[key]@.role == NearbyRole::Client ==> is_addressed(
            service_name,
            method_name,
            domain_name,
            payload,
            call,
        ),
        sessions@[key]@.role == NearbyRole::HostProxy ==> call == Err::<ScopedCall, CallError>(
            CallError::NotAClient,
        ),
{
}

/// Closing a session of the table leaves its two tasks to be aborted, and, where it is
/// a client's, what it calls with to be stopped.
pub proof fn lemma_closing_leaves_both_tasks<Rpc, Task>(
    sessions: NearbySessions<Rpc, Task>,
    key: Seq<char>,
    closed: NearbyManagementSession<Rpc, Task>,
    work: ShutdownWork<Task>,
)
    requires
        sessions.well_formed(),
        sessions@.contains_key(key),
        is_shutdown(sessions@[key], closed, work),
    ensures
        work.tasks@ == sessions@[key]@.tasks,
        work.tasks@.len() == 2,
        work.stop_rpc <==> sessions@[key]@.role == NearbyRole::Client,
        closed@.closed,
        closed.well_formed(),
{
}

/// There is room under a key exactly where the key is valid and free and fewer than
/// eight sessions are open.
pub proof fn lemma_room<Rpc, Task>(
    open: Map<Seq<char>, NearbyManagementSession<Rpc, Task>>,
    key: Seq<char>,
)
    ensures
        has_room_for(open, key) <==> is_session_key(key) && !open.contains_key(key) && open.len()
            < 8,
{
}

/// Which keys there is room under does not depend on what the open sessions are, only
/// on their keys.
pub proof fn lemma_room_depends_on_keys<Rpc, Task>(
    open: Map<Seq<char>, NearbyManagementSession<Rpc, Task>>,
    other: Map<Seq<char>, NearbyManagementSession<Rpc, Task>>,
    key: Seq<char>,
)
    requires
        open.dom() == other.dom(),
    ensures
        has_room_for(open, key) == has_room_for(other, key),
{
}

/// A transport is enough for a host's end, and for a client's end if there is something
/// to call with; the session opened on it is open, in the given role and with its tasks,
/// and only a client's calls.
pub proof fn lemma_established_sessions<Rpc, Task>(
    base: Established<Rpc, Task>,
    role: NearbyRole,
    session: NearbyManagementSession<Rpc, Task>,
)
    requires
        base.is_base_of(role, session),
    ensures
        base.serves(NearbyRole::HostProxy),
        base.serves(NearbyRole::Client) <==> base.rpc is Some,
        session@.role == role,
        session@.rpc is Some ==> role == NearbyRole::Client && session@.rpc == base.rpc,
        role == NearbyRole::Client ==> session@.rpc == base.rpc,
        session@.inbound == Some(base.ends.inbound),
        session@.outbound == base.ends.outbound,
        session@.tasks == seq![base.inbound_task, base.outbound_task],
        !session@.closed,
{
}

/// In a table, no session is closed, each has a sender and two tasks, and each has
/// something to call with exactly where it is a client's; each has a valid key, and
/// there are at most eight.
pub proof fn lemma_tables_hold_open_sessions<Rpc, Task>(
    sessions: NearbySessions<Rpc, Task>,
    key: Seq<char>,
)
    requires
        sessions.well_formed(),
    ensures
        sessions@.dom().finite(),
        sessions@.len() <= 8,
        sessions@.contains_key(key) ==> {
            &&& is_session_key(key)
            &&& !sessions@[key]@.closed
            &&& sessions@[key]@.inbound is Some
            &&& sessions@[key]@.tasks.len() == 2
            &&& sessions@[key]@.rpc is Some <==> sessions@[key]@.role == NearbyRole::Client
        },
{
}

/// Opening a session and closing it leaves the table as it was, with the session closed,
/// its two tasks to be aborted, and what a client called with to be stopped.
pub proof fn lemma_open_then_close<Rpc, Task>(
    before: Map<Seq<char>, NearbyManagementSession<Rpc, Task>>,
    between: Map<Seq<char>, NearbyManagementSession<Rpc, Task>>,
    after: Map<Seq<char>, NearbyManagementSession<Rpc, Task>>,
    key: Seq<char>,
    role: NearbyRole,
    established: Established<Rpc, Task>,
    removed: Option<(NearbyManagementSession<Rpc, Task>, ShutdownWork<Task>)>,
)
    requires
        is_open_call(before, between, key, role, Some(established), true),
        is_close_call(between, after, key, removed),
    ensures
        after == before,
        removed is Some,
        (removed->0).0@.closed,
        (removed->0).0@.role == role,
        (removed->0).1.tasks@ == seq![established.inbound_task, established.outbound_task],
        (removed->0).1.stop_rpc <==> role == NearbyRole::Client,
{
    assert(after =~= before);
}

/// A session opens under every valid key that is free, as long as there are fewer than
/// eight: a host's with any transport, a client's with one that has something to call
/// with. It does not open a second time.
pub proof fn lemma_sessions_open_once<Rpc, Task>(
    before: Map<Seq<char>, NearbyManagementSession<Rpc, Task>>,
    between: Map<Seq<char>, NearbyManagementSession<Rpc, Task>>,
    after: Map<Seq<char>, NearbyManagementSession<Rpc, Task>>,
    key: Seq<char>,
    role: NearbyRole,
    other_role: NearbyRole,
    established: Established<Rpc, Task>,
    other: Option<Established<Rpc, Task>>,
    opened: bool,
    opened_again: bool,
)
    requires
        is_session_key(key),
        !before.contains_key(key),
        before.len() < 8,
        role == NearbyRole::HostProxy || established.rpc is Some,
        is_open_call(before, between, key, role, Some(established), opened),
        is_open_call(between, after, key, other_role, other, opened_again),
    ensures
        opened,
        between.contains_key(key),
        between[key]@.role == role,
        !between[key]@.closed,
        !opened_again,
        after == between,
{
}

/// Whatever is done to the session under a key, the sessions under other keys stay as
/// they are.
pub proof fn lemma_sessions_are_apart<Rpc, Task>(
    before: Map<Seq<char>, NearbyManagementSession<Rpc, Task>>,
    after: Map<Seq<char>, NearbyManagementSession<Rpc, Task>>,
    key: Seq<char>,
    other: Seq<char>,
    role: NearbyRole,
    established: Option<Established<Rpc, Task>>,
    removed: Option<(NearbyManagementSession<Rpc, Task>, ShutdownWork<Task>)>,
    bytes: Seq<u8>,
    packet_type: Option<u8>,
    codes: RpcPacketCodes,
    packets: Seq<Vec<u8>>,
    done: bool,
)
    requires
        other != key,
        is_open_call(before, after, key, role, established, done) || is_close_call(
            before,
            after,
            key,
            removed,
        ) || is_push_call(before, after, key, bytes, packet_type, codes, done) || is_drain_call(
            before,
            after,
            key,
            packets,
        ),
    ensures
        after.contains_key(other) <==> before.contains_key(other),
        before.contains_key(other) ==> after[other] == before[other],
{
}

/// A packet for a session in a table, of either end, is offered to that session's queue
/// as it is; one for no session goes nowhere.
pub proof fn lemma_packets_reach_their_session<Rpc, Task>(
    sessions: NearbySessions<Rpc, Task>,
    after: Map<Seq<char>, NearbyManagementSession<Rpc, Task>>,
    key: Seq<char>,
    bytes: Seq<u8>,
    packet_type: Option<u8>,
    codes: RpcPacketCodes,
    pushed: bool,
)
    requires
        sessions.well_formed(),
        is_push_call(sessions@, after, key, bytes, packet_type, codes, pushed),
    ensures
        after.dom() =~= sessions@.dom(),
        !sessions@.contains_key(key) ==> !pushed && after == sessions@,
        sessions@.contains_key(key) && 0 < bytes.len() <= 65536 && (packet_type == Some(
            codes.request,
        ) || packet_type == Some(codes.response)) ==> {
            &&& after[key]@.inbound is Some
            &&& offers(after[key]@.inbound->0) == offers(sessions@[key]@.inbound->0).push(
                (bytes, pushed),
            )
        },
{
}

/// What is drained from a session in a table, of either end, is what its queue answers
/// until it has no more or has handed out 256; nothing is drained where there is no
/// session.
pub proof fn lemma_drains_ask_their_session<Rpc, Task>(
    before: Map<Seq<char>, NearbyManagementSession<Rpc, Task>>,
    after: Map<Seq<char>, NearbyManagementSession<Rpc, Task>>,
    key: Seq<char>,
    packets: Seq<Vec<u8>>,
)
    requires
        is_drain_call(before, after, key, packets),
    ensures
        !before.contains_key(key) ==> packets.len() == 0 && after == before,
        before.contains_key(key) ==> {
            &&& after.contains_key(key)
            &&& answers(after[key]@.outbound).len() > answers(before[key]@.outbound).len()
            &&& packets.len() < 256 ==> answers(after[key]@.outbound).last() is None
            &&& packets.len() <= 256
        },
{
    if before.contains_key(key) {
        lemma_drains_ask_until_nothing_is_left(before[key], after[key], packets);
    }
}

/// Under every valid key, and under no other, a host's end is established for a host and
/// a client's for anyone else.
pub proof fn lemma_roles(key: Seq<char>, host: bool)
    ensures
        role_to_open(key, host) is Some <==> is_session_key(key),
        role_to_open(key, host) is Some ==> (role_to_open(key, host) == Some(NearbyRole::HostProxy)
            <==> host),
        role_to_open(key, host) is Some ==> role_to_open(key, host) != role_to_open(key, !host),
{
}

} // verus!
