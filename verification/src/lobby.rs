//! The presence hub: live session handles and per-group room membership,
//! driven by one serialized stream of connect/disconnect/broadcast events.
//! The hub never performs a send itself: each operation returns the
//! deliveries to make, in order, and the caller performs them.

use vstd::prelude::*;

use crate::id_map::IdMap;
use crate::ids::Uid;

verus! {

/// One delivery to make: the receiving device and its session handle. What
/// is sent is decided by the operation that produced it: a connect produces
/// membership-changed signals, a broadcast fans a payload out.
#[derive(Clone, Copy, Debug, PartialEq, Eq, Structural)]
pub struct Outbound {
    pub device: u128,
    pub handle: u64,
}

/// One event of the hub's serialized inbound queue.
#[derive(Clone, Copy, Debug)]
pub enum HubEvent {
    /// A device's connection handshake succeeded: join its room and notify
    /// every member of that room, the newcomer included.
    Connect { self_id: Uid, room_id: Uid, handle: u64 },
    /// A device's session ended: forget its handle and leave its room; an
    /// emptied room is garbage-collected. No notification is sent.
    Disconnect { self_id: Uid, room_id: Uid },
    /// An application payload to relay to every member of a room.
    Broadcast { room_id: Uid },
}

/// The members of one room, in join order, without repetition.
struct RoomSet {
    members: Vec<u128>,
}

/// No device occurs twice.
spec fn distinct_members(s: Seq<u128>) -> bool {
    forall|i: int, j: int| 0 <= i < j < s.len() ==> s[i] != s[j]
}

impl View for RoomSet {
    type V = Seq<u128>;

    closed spec fn view(&self) -> Seq<u128> {
        self.members@
    }
}

proof fn lemma_remove_preserves_distinct(s: Seq<u128>, i: int)
    requires
        distinct_members(s),
        0 <= i < s.len(),
    ensures
        distinct_members(s.remove(i)),
{
    s.remove_ensures(i);
    assert forall|a: int, b: int| 0 <= a < b < s.remove(i).len() implies s.remove(i)[a] != s.remove(
        i,
    )[b] by {
        let a0 = if a < i {
            a
        } else {
            a + 1
        };
        let b0 = if b < i {
            b
        } else {
            b + 1
        };
        assert(s.remove(i)[a] == s[a0]);
        assert(s.remove(i)[b] == s[b0]);
    }
}

impl RoomSet {
    spec fn wf(self) -> bool {
        distinct_members(self@)
    }

    fn new() -> (r: RoomSet)
        ensures
            r.wf(),
            r@ == Seq::<u128>::empty(),
    {
        RoomSet { members: Vec::new() }
    }

    fn len(&self) -> (r: usize)
        ensures
            r == self@.len(),
    {
        self.members.len()
    }

    fn member_at(&self, i: usize) -> (r: u128)
        requires
            i < self@.len(),
        ensures
            r == self@[i as int],
    {
        self.members[i]
    }

    /// The position of a member, if present.
    fn position_of(&self, d: u128) -> (r: Option<usize>)
        ensures
            match r {
                Some(i) => i < self@.len() && self@[i as int] == d,
                None => !self@.contains(d),
            },
    {
        let n = self.members.len();
        let mut i: usize = 0;
        while i < n
            invariant
                n == self@.len(),
                i <= n,
                forall|j: int| 0 <= j < i ==> self@[j] != d,
            decreases n - i,
        {
            if self.members[i] == d {
                return Some(i);
            }
            i = i + 1;
        }
        None
    }

    /// Adds a device; a device already present is left where it is.
    fn insert(&mut self, d: u128)
        requires
            old(self).wf(),
        ensures
            final(self).wf(),
            final(self)@ == if old(self)@.contains(d) {
                old(self)@
            } else {
                old(self)@.push(d)
            },
    {
        match self.position_of(d) {
            Some(_) => {},
            None => {
                self.members.push(d);
            },
        }
    }

    /// Removes a device; a device not present is a no-op.
    fn remove(&mut self, d: u128)
        requires
            old(self).wf(),
        ensures
            final(self).wf(),
            final(self)@ == left_members(old(self)@, d),
    {
        let ghost s = self.members@;
        match self.position_of(d) {
            Some(i) => {
                self.members.remove(i);
                proof {
                    let j = s.index_of(d);
                    assert(0 <= j < s.len() && s[j] == d);
                    assert(j == i as int);
                    lemma_remove_preserves_distinct(s, i as int);
                }
            },
            None => {},
        }
    }
}

/// The members of a room after a device leaves it: the sequence without its
/// one occurrence, or unchanged when it was not a member.
pub open spec fn left_members(ms: Seq<u128>, d: u128) -> Seq<u128> {
    if ms.contains(d) {
        ms.remove(ms.index_of(d))
    } else {
        ms
    }
}

/// The members of a room after a device joins it: appended at the end, or
/// left in place when already a member; a missing room starts fresh.
pub open spec fn joined_members(rooms: Map<u128, Seq<u128>>, g: u128, d: u128) -> Seq<u128> {
    if rooms.contains_key(g) {
        if rooms[g].contains(d) {
            rooms[g]
        } else {
            rooms[g].push(d)
        }
    } else {
        seq![d]
    }
}

/// The deliveries for one pass over a room: one per member, in room order,
/// skipping members with no live session.
pub open spec fn deliveries_for(members: Seq<u128>, sessions: Map<u128, u64>) -> Seq<Outbound>
    decreases members.len(),
{
    if members.len() == 0 {
        Seq::empty()
    } else {
        let rest = deliveries_for(members.drop_last(), sessions);
        if sessions.contains_key(members.last()) {
            rest.push(Outbound { device: members.last(), handle: sessions[members.last()] })
        } else {
            rest
        }
    }
}

/// The session map after a connect.
pub open spec fn connect_sessions(sessions: Map<u128, u64>, d: u128, h: u64) -> Map<u128, u64> {
    sessions.insert(d, h)
}

/// The room map after a connect.
pub open spec fn connect_rooms(rooms: Map<u128, Seq<u128>>, g: u128, d: u128) -> Map<
    u128,
    Seq<u128>,
> {
    rooms.insert(g, joined_members(rooms, g, d))
}

/// The deliveries a connect makes: one membership-changed signal per member
/// of the joined room, the newcomer included, under the updated sessions.
pub open spec fn connect_out(
    sessions: Map<u128, u64>,
    rooms: Map<u128, Seq<u128>>,
    d: u128,
    g: u128,
    h: u64,
) -> Seq<Outbound> {
    deliveries_for(joined_members(rooms, g, d), connect_sessions(sessions, d, h))
}

/// The hub state after a disconnect: nothing at all for a device with no
/// session; otherwise the session is dropped, the device leaves its room,
/// and an emptied room is garbage-collected.
pub open spec fn disconnect_state(
    sessions: Map<u128, u64>,
    rooms: Map<u128, Seq<u128>>,
    d: u128,
    g: u128,
) -> (Map<u128, u64>, Map<u128, Seq<u128>>) {
    if !sessions.contains_key(d) {
        (sessions, rooms)
    } else {
        let sessions2 = sessions.remove(d);
        if rooms.contains_key(g) {
            let ms2 = left_members(rooms[g], d);
            if ms2.len() == 0 {
                (sessions2, rooms.remove(g))
            } else {
                (sessions2, rooms.insert(g, ms2))
            }
        } else {
            (sessions2, rooms)
        }
    }
}

/// The deliveries a broadcast makes: one per member of the room, in room
/// order, skipping members with no live session; none for a missing room.
pub open spec fn broadcast_out(
    sessions: Map<u128, u64>,
    rooms: Map<u128, Seq<u128>>,
    g: u128,
) -> Seq<Outbound> {
    if rooms.contains_key(g) {
        deliveries_for(rooms[g], sessions)
    } else {
        Seq::empty()
    }
}

/// The hub state after one event.
pub open spec fn hub_next(
    sessions: Map<u128, u64>,
    rooms: Map<u128, Seq<u128>>,
    e: HubEvent,
) -> (Map<u128, u64>, Map<u128, Seq<u128>>) {
    match e {
        HubEvent::Connect { self_id, room_id, handle } => (
            connect_sessions(sessions, self_id.value, handle),
            connect_rooms(rooms, room_id.value, self_id.value),
        ),
        HubEvent::Disconnect { self_id, room_id } => disconnect_state(
            sessions,
            rooms,
            self_id.value,
            room_id.value,
        ),
        HubEvent::Broadcast { room_id } => (sessions, rooms),
    }
}

/// The deliveries one event makes.
pub open spec fn hub_out(
    sessions: Map<u128, u64>,
    rooms: Map<u128, Seq<u128>>,
    e: HubEvent,
) -> Seq<Outbound> {
    match e {
        HubEvent::Connect { self_id, room_id, handle } => connect_out(
            sessions,
            rooms,
            self_id.value,
            room_id.value,
            handle,
        ),
        HubEvent::Disconnect { self_id, room_id } => Seq::empty(),
        HubEvent::Broadcast { room_id } => broadcast_out(sessions, rooms, room_id.value),
    }
}

/// The hub state after a whole sequence of events, applied in order.
pub open spec fn hub_run(
    sessions: Map<u128, u64>,
    rooms: Map<u128, Seq<u128>>,
    es: Seq<HubEvent>,
) -> (Map<u128, u64>, Map<u128, Seq<u128>>)
    decreases es.len(),
{
    if es.len() == 0 {
        (sessions, rooms)
    } else {
        let mid = hub_run(sessions, rooms, es.drop_last());
        hub_next(mid.0, mid.1, es.last())
    }
}

/// The deliveries of a whole sequence of events: each event's deliveries,
/// concatenated in event order.
pub open spec fn hub_run_out(
    sessions: Map<u128, u64>,
    rooms: Map<u128, Seq<u128>>,
    es: Seq<HubEvent>,
) -> Seq<Outbound>
    decreases es.len(),
{
    if es.len() == 0 {
        Seq::empty()
    } else {
        let mid = hub_run(sessions, rooms, es.drop_last());
        hub_run_out(sessions, rooms, es.drop_last()) + hub_out(mid.0, mid.1, es.last())
    }
}

/// The presence hub. Each map is keyed as the registry is: sessions by
/// device id, rooms by group id.
pub struct ClientGroupWs {
    sessions: IdMap<u64>,
    rooms: IdMap<RoomSet>,
}

/// A session lookup for every member of a room, in room order.
fn room_deliveries(sessions: &IdMap<u64>, room: &RoomSet) -> (out: Vec<Outbound>)
    requires
        sessions.wf(),
    ensures
        out@ == deliveries_for(room@, sessions@),
{
    let n = room.len();
    let mut out: Vec<Outbound> = Vec::new();
    let mut i: usize = 0;
    while i < n
        invariant
            sessions.wf(),
            n == room@.len(),
            i <= n,
            out@ == deliveries_for(room@.subrange(0, i as int), sessions@),
        decreases n - i,
    {
        let d = room.member_at(i);
        match sessions.get(d) {
            Some(h) => {
                out.push(Outbound { device: d, handle: *h });
            },
            None => {},
        }
        proof {
            assert(room@.subrange(0, i + 1 as int).drop_last() =~= room@.subrange(0, i as int));
            assert(room@.subrange(0, i + 1 as int).last() == room@[i as int]);
        }
        i = i + 1;
    }
    proof {
        assert(room@.subrange(0, n as int) =~= room@);
    }
    out
}

impl ClientGroupWs {
    pub closed spec fn wf(self) -> bool {
        &&& self.sessions.wf()
        &&& self.rooms.wf()
        &&& forall|g: u128| #[trigger] self.rooms@.contains_key(g) ==> self.rooms@[g].wf()
    }

    /// Live session handles, by device id.
    pub closed spec fn sessions_view(self) -> Map<u128, u64> {
        self.sessions@
    }

    /// Room membership in join order, by group id.
    pub closed spec fn rooms_view(self) -> Map<u128, Seq<u128>> {
        Map::new(|g: u128| self.rooms@.contains_key(g), |g: u128| self.rooms@[g]@)
    }

    pub fn new() -> (r: ClientGroupWs)
        ensures
            r.wf(),
            r.sessions_view() == Map::<u128, u64>::empty(),
            r.rooms_view() == Map::<u128, Seq<u128>>::empty(),
    {
        let r = ClientGroupWs { sessions: IdMap::new(), rooms: IdMap::new() };
        proof {
            assert(r.rooms_view() =~= Map::<u128, Seq<u128>>::empty());
        }
        r
    }

    /// A device joined: record its handle, put it in its room, and return
    /// the membership-changed deliveries for the whole room.
    pub fn connect(&mut self, self_id: Uid, room_id: Uid, handle: u64) -> (out: Vec<Outbound>)
        requires
            old(self).wf(),
        ensures
            final(self).wf(),
            final(self).sessions_view() == connect_sessions(
                old(self).sessions_view(),
                self_id.value,
                handle,
            ),
            final(self).rooms_view() == connect_rooms(
                old(self).rooms_view(),
                room_id.value,
                self_id.value,
            ),
            out@ == connect_out(
                old(self).sessions_view(),
                old(self).rooms_view(),
                self_id.value,
                room_id.value,
                handle,
            ),
    {
        let ghost pre_rooms = self.rooms@;
        let ghost pre_rooms_view = self.rooms_view();
        self.sessions.insert(self_id.value, handle);
        let mut room = match self.rooms.remove(room_id.value) {
            Some(r) => r,
            None => RoomSet::new(),
        };
        proof {
            assert(room@ == if pre_rooms_view.contains_key(room_id.value) {
                pre_rooms_view[room_id.value]
            } else {
                Seq::<u128>::empty()
            });
        }
        room.insert(self_id.value);
        proof {
            assert(room@ =~= joined_members(pre_rooms_view, room_id.value, self_id.value));
        }
        let out = room_deliveries(&self.sessions, &room);
        self.rooms.insert(room_id.value, room);
        proof {
            assert(final(self).rooms_view() =~~= connect_rooms(
                pre_rooms_view,
                room_id.value,
                self_id.value,
            ));
        }
        out
    }

    /// A device's session ended: forget it, leave its room, and collect an
    /// emptied room. A device with no session is a no-op, and nothing is
    /// broadcast either way.
    pub fn disconnect(&mut self, self_id: Uid, room_id: Uid)
        requires
            old(self).wf(),
        ensures
            final(self).wf(),
            (final(self).sessions_view(), final(self).rooms_view()) == disconnect_state(
                old(self).sessions_view(),
                old(self).rooms_view(),
                self_id.value,
                room_id.value,
            ),
    {
        let ghost pre_sessions = self.sessions@;
        let ghost pre_rooms_view = self.rooms_view();
        match self.sessions.remove(self_id.value) {
            Some(_) => {
                match self.rooms.remove(room_id.value) {
                    Some(mut room) => {
                        room.remove(self_id.value);
                        if room.len() > 0 {
                            self.rooms.insert(room_id.value, room);
                            proof {
                                assert(final(self).rooms_view() =~~= pre_rooms_view.insert(
                                    room_id.value,
                                    left_members(pre_rooms_view[room_id.value], self_id.value),
                                ));
                            }
                        } else {
                            proof {
                                assert(final(self).rooms_view() =~~= pre_rooms_view.remove(
                                    room_id.value,
                                ));
                            }
                        }
                    },
                    None => {
                        proof {
                            assert(final(self).rooms_view() =~~= pre_rooms_view);
                        }
                    },
                }
            },
            None => {
                proof {
                    assert(final(self).sessions_view() =~= pre_sessions);
                    assert(final(self).rooms_view() =~~= pre_rooms_view);
                }
            },
        }
    }

    /// The deliveries for relaying a payload to a whole room; the payload
    /// itself rides with the caller, which sends it to each returned handle.
    pub fn broadcast(&self, room_id: Uid) -> (out: Vec<Outbound>)
        requires
            self.wf(),
        ensures
            out@ == broadcast_out(self.sessions_view(), self.rooms_view(), room_id.value),
    {
        match self.rooms.get(room_id.value) {
            Some(room) => room_deliveries(&self.sessions, room),
            None => Vec::new(),
        }
    }

    /// Applies a queue of events in order; the result is each event's
    /// deliveries, concatenated in event order.
    pub fn run_events(&mut self, events: &Vec<HubEvent>) -> (out: Vec<Outbound>)
        requires
            old(self).wf(),
        ensures
            final(self).wf(),
            (final(self).sessions_view(), final(self).rooms_view()) == hub_run(
                old(self).sessions_view(),
                old(self).rooms_view(),
                events@,
            ),
            out@ == hub_run_out(old(self).sessions_view(), old(self).rooms_view(), events@),
    {
        let ghost s0 = old(self).sessions_view();
        let ghost r0 = old(self).rooms_view();
        let n = events.len();
        let mut out: Vec<Outbound> = Vec::new();
        let mut i: usize = 0;
        while i < n
            invariant
                self.wf(),
                n == events@.len(),
                i <= n,
                (self.sessions_view(), self.rooms_view()) == hub_run(
                    s0,
                    r0,
                    events@.subrange(0, i as int),
                ),
                out@ == hub_run_out(s0, r0, events@.subrange(0, i as int)),
            decreases n - i,
        {
            let e = events[i];
            let mut step = self.handle_event(e);
            out.append(&mut step);
            proof {
                assert(events@.subrange(0, i + 1 as int).drop_last() =~= events@.subrange(
                    0,
                    i as int,
                ));
                assert(events@.subrange(0, i + 1 as int).last() == events@[i as int]);
            }
            i = i + 1;
        }
        proof {
            assert(events@.subrange(0, n as int) =~= events@);
        }
        out
    }

    /// Applies one event.
    pub fn handle_event(&mut self, e: HubEvent) -> (out: Vec<Outbound>)
        requires
            old(self).wf(),
        ensures
            final(self).wf(),
            (final(self).sessions_view(), final(self).rooms_view()) == hub_next(
                old(self).sessions_view(),
                old(self).rooms_view(),
                e,
            ),
            out@ == hub_out(old(self).sessions_view(), old(self).rooms_view(), e),
    {
        match e {
            HubEvent::Connect { self_id, room_id, handle } => self.connect(
                self_id,
                room_id,
                handle,
            ),
            HubEvent::Disconnect { self_id, room_id } => {
                self.disconnect(self_id, room_id);
                Vec::new()
            },
            HubEvent::Broadcast { room_id } => self.broadcast(room_id),
        }
    }
}

/// Law: per-room event order is preserved. The deliveries of a run split
/// exactly at any event boundary: everything caused by the first `i` events
/// precedes everything caused by the rest, so a notification submitted
/// earlier is delivered before one submitted later.
pub proof fn lemma_event_order_preserved(
    sessions: Map<u128, u64>,
    rooms: Map<u128, Seq<u128>>,
    es: Seq<HubEvent>,
    i: int,
)
    requires
        0 <= i <= es.len(),
    ensures
        hub_run(sessions, rooms, es) == hub_run(
            hub_run(sessions, rooms, es.subrange(0, i)).0,
            hub_run(sessions, rooms, es.subrange(0, i)).1,
            es.subrange(i, es.len() as int),
        ),
        hub_run_out(sessions, rooms, es) == hub_run_out(sessions, rooms, es.subrange(0, i))
            + hub_run_out(
            hub_run(sessions, rooms, es.subrange(0, i)).0,
            hub_run(sessions, rooms, es.subrange(0, i)).1,
            es.subrange(i, es.len() as int),
        ),
    decreases es.len(),
{
    let mid = hub_run(sessions, rooms, es.subrange(0, i));
    if i == es.len() {
        assert(es.subrange(0, i) =~= es);
        assert(es.subrange(i, es.len() as int) =~= Seq::<HubEvent>::empty());
        assert(hub_run_out(sessions, rooms, es) + Seq::<Outbound>::empty() =~= hub_run_out(
            sessions,
            rooms,
            es,
        ));
    } else {
        let es1 = es.drop_last();
        lemma_event_order_preserved(sessions, rooms, es1, i);
        assert(es1.subrange(0, i) =~= es.subrange(0, i));
        assert(es.subrange(i, es.len() as int).drop_last() =~= es1.subrange(i, es1.len() as int));
        assert(es.subrange(i, es.len() as int).last() == es.last());
        assert(hub_run_out(sessions, rooms, es1) + hub_out(
            hub_run(sessions, rooms, es1).0,
            hub_run(sessions, rooms, es1).1,
            es.last(),
        ) =~= hub_run_out(sessions, rooms, es1) + hub_out(
            hub_run(sessions, rooms, es1).0,
            hub_run(sessions, rooms, es1).1,
            es.last(),
        ));
        assert((hub_run_out(sessions, rooms, es.subrange(0, i)) + hub_run_out(
            mid.0,
            mid.1,
            es1.subrange(i, es1.len() as int),
        )) + hub_out(hub_run(sessions, rooms, es1).0, hub_run(sessions, rooms, es1).1, es.last())
            =~= hub_run_out(sessions, rooms, es.subrange(0, i)) + (hub_run_out(
            mid.0,
            mid.1,
            es1.subrange(i, es1.len() as int),
        ) + hub_out(hub_run(sessions, rooms, es1).0, hub_run(sessions, rooms, es1).1, es.last())));
    }
}

/// Law: every member of a room with a live session receives a delivery from
/// a pass over the room; in particular, a newly connected device receives
/// its own membership-changed signal.
pub proof fn lemma_deliveries_reach_members(members: Seq<u128>, sessions: Map<u128, u64>, d: u128)
    requires
        members.contains(d),
        sessions.contains_key(d),
    ensures
        deliveries_for(members, sessions).contains(Outbound { device: d, handle: sessions[d] }),
    decreases members.len(),
{
    if members.last() == d {
        let out = deliveries_for(members, sessions);
        assert(out.last() == Outbound { device: d, handle: sessions[d] });
    } else {
        let j = choose|j: int| 0 <= j < members.len() && members[j] == d;
        assert(members.drop_last()[j] == d);
        lemma_deliveries_reach_members(members.drop_last(), sessions, d);
        let rest = deliveries_for(members.drop_last(), sessions);
        let k = choose|k: int|
            0 <= k < rest.len() && rest[k] == Outbound { device: d, handle: sessions[d] };
        assert(deliveries_for(members, sessions)[k] == Outbound { device: d, handle: sessions[d] });
    }
}

/// Law: a disconnect for a device with no live session changes nothing, and
/// a disconnect never produces a delivery.
pub proof fn lemma_disconnect_idempotent(
    sessions: Map<u128, u64>,
    rooms: Map<u128, Seq<u128>>,
    d: Uid,
    g: Uid,
)
    requires
        !sessions.contains_key(d.value),
    ensures
        disconnect_state(sessions, rooms, d.value, g.value) == (sessions, rooms),
        hub_out(sessions, rooms, HubEvent::Disconnect { self_id: d, room_id: g }) == Seq::<
            Outbound,
        >::empty(),
{
}

/// Law: when the last member of a room disconnects, the room itself is
/// gone from the room map.
pub proof fn lemma_room_garbage_collected(
    sessions: Map<u128, u64>,
    rooms: Map<u128, Seq<u128>>,
    d: u128,
    g: u128,
)
    requires
        sessions.contains_key(d),
        rooms.contains_key(g),
        rooms[g] == seq![d],
    ensures
        !disconnect_state(sessions, rooms, d, g).1.contains_key(g),
{
    let ms = rooms[g];
    assert(ms[0] == d);
    assert(ms.contains(d));
    let i = ms.index_of(d);
    assert(i == 0);
    assert(ms.remove(0) =~= Seq::<u128>::empty());
}

/// Law: a connect to a group with no room makes a fresh room holding only
/// the newcomer.
pub proof fn lemma_fresh_room_after_collection(rooms: Map<u128, Seq<u128>>, g: u128, d: u128)
    requires
        !rooms.contains_key(g),
    ensures
        connect_rooms(rooms, g, d)[g] == seq![d],
{
}

} // verus!
