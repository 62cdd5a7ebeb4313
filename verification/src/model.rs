//! What the server keeps, as values: rooms, administrator sessions, channels and ready players.
use tokio::sync::broadcast::Sender;
use vstd::prelude::*;
use crate::channel;
use crate::clock::Timestamp;
use crate::room::{self, RoomView};
use crate::text;

verus! {

/// The one account that can log in.
pub const ADMIN_USERNAME: &'static str = "admin";

/// How many hours an administrator session lasts.
pub const ADMIN_SESSION_HOURS: i64 = 24;

/// What an administrator session stands for.
pub struct SessionView {
    pub username: Seq<char>,
    pub created_at: Timestamp,
    pub expires_at: Timestamp,
}

impl SessionView {
    /// What holds of every session that is kept: it is the administrator's, and it lasts
    /// [`ADMIN_SESSION_HOURS`] hours.
    pub open spec fn inv(self) -> bool {
        &&& self.username == ADMIN_USERNAME@
        &&& self.created_at.valid()
        &&& self.expires_at.valid()
        &&& self.expires_at == self.created_at.hours_later(ADMIN_SESSION_HOURS as int)
        &&& self.expires_at.instant() == self.created_at.instant() + ADMIN_SESSION_HOURS * 3600
            * 1_000_000_000
    }

    /// The session is still open at that time.
    pub open spec fn live(self, now: Timestamp) -> bool {
        self.expires_at.after(now)
    }
}

/// What the server keeps: rooms, channels and ready players by room, sessions by
/// token. The ready players of a room stand in the order in which they became ready.
#[verifier::ext_equal]
pub struct StateView {
    pub rooms: Map<Seq<char>, RoomView>,
    pub sessions: Map<Seq<char>, SessionView>,
    pub channels: Map<Seq<char>, Sender<String>>,
    pub ready: Map<Seq<char>, Seq<Seq<char>>>,
    pub password: Seq<char>,
}

impl StateView {
    /// What holds of every state: each room stands under its id, keeps [`RoomView::inv`], and
    /// has a channel and a list of ready players; no player is in such a list twice; every
    /// channel has the same capacity, and no two ids have the same channel; every session keeps
    /// [`SessionView::inv`].
    pub open spec fn inv(self) -> bool {
        &&& forall|id: Seq<char>| #[trigger]
            self.rooms.contains_key(id) ==> {
                &&& self.rooms[id].id == id
                &&& self.rooms[id].inv()
                &&& self.channels.contains_key(id)
                &&& self.ready.contains_key(id)
            }
        &&& forall|id: Seq<char>| #[trigger]
            self.ready.contains_key(id) ==> self.ready[id].no_duplicates()
        &&& forall|id: Seq<char>| #[trigger]
            self.channels.contains_key(id) ==> channel::channel_capacity(self.channels[id])
                == channel::CHANNEL_CAPACITY
        &&& forall|a: Seq<char>, b: Seq<char>|
            a != b && #[trigger] self.channels.contains_key(a)
                && #[trigger] self.channels.contains_key(b) ==> self.channels[a]
                != self.channels[b]
        &&& forall|token: Seq<char>| #[trigger]
            self.sessions.contains_key(token) ==> self.sessions[token].inv()
    }

    /// No id has that channel.
    pub open spec fn apart(self, tx: Sender<String>) -> bool {
        forall|id: Seq<char>| #[trigger]
            self.channels.contains_key(id) ==> self.channels[id] != tx
    }

    /// The state in which those players are ready in the room.
    pub open spec fn with_ready(self, id: Seq<char>, list: Seq<Seq<char>>) -> StateView {
        StateView { ready: self.ready.insert(id, list), ..self }
    }

    /// The players who are ready in the room.
    pub open spec fn ready_in(self, id: Seq<char>) -> Seq<Seq<char>> {
        if self.ready.contains_key(id) {
            self.ready[id]
        } else {
            Seq::empty()
        }
    }

    /// The state in which the room has a list of ready players.
    pub open spec fn ready_opened(self, id: Seq<char>) -> StateView {
        self.with_ready(id, self.ready_in(id))
    }

    /// The state in which `player` is ready in the room, or is not.
    pub open spec fn ready_set(self, id: Seq<char>, player: Seq<char>, flag: bool) -> StateView {
        let list = self.ready_in(id);
        if !flag {
            self.with_ready(id, text::without(list, player))
        } else if list.contains(player) {
            self.with_ready(id, list)
        } else {
            self.with_ready(id, list.push(player))
        }
    }

    /// The state in which `player` is not ready in the room, if it has a list of ready players.
    pub open spec fn unready(self, id: Seq<char>, player: Seq<char>) -> StateView {
        if self.ready.contains_key(id) {
            self.ready_set(id, player, false)
        } else {
            self
        }
    }

    /// The state in which the room has a channel: the one it had, or else `fresh`.
    pub open spec fn channel_opened(self, id: Seq<char>, fresh: Sender<String>) -> StateView {
        if self.channels.contains_key(id) {
            self
        } else {
            self.with_channel(id, fresh)
        }
    }

    /// The state with the channel under the id of a room.
    pub open spec fn with_channel(self, id: Seq<char>, tx: Sender<String>) -> StateView {
        StateView { channels: self.channels.insert(id, tx), ..self }
    }

    /// The state without the session of that token.
    pub open spec fn without_session(self, token: Seq<char>) -> StateView {
        StateView { sessions: self.sessions.remove(token), ..self }
    }

    /// The state with the session under that token.
    pub open spec fn with_session(self, token: Seq<char>, session: SessionView) -> StateView {
        StateView { sessions: self.sessions.insert(token, session), ..self }
    }

    /// The state with the sessions that are still open at that time, and no others.
    pub open spec fn with_live_sessions(self, now: Timestamp) -> StateView {
        StateView { sessions: live_sessions(self.sessions, now), ..self }
    }

    /// The state without the room, its channel and its ready players.
    pub open spec fn without_room(self, id: Seq<char>) -> StateView {
        StateView {
            rooms: self.rooms.remove(id),
            channels: self.channels.remove(id),
            ready: self.ready.remove(id),
            ..self
        }
    }

    /// The state with the room in place of the one of that id.
    pub open spec fn with_room(self, id: Seq<char>, room: RoomView) -> StateView {
        StateView { rooms: self.rooms.insert(id, room), ..self }
    }

    /// The state once `player` left the room: an empty room is gone.
    pub open spec fn left(self, id: Seq<char>, player: Seq<char>) -> StateView {
        let room = self.rooms[id].departed(player);
        if room.players.len() == 0 {
            self.without_room(id)
        } else {
            self.with_room(id, room)
        }
    }
}

/// The sessions that are still open at that time.
pub open spec fn live_sessions(
    sessions: Map<Seq<char>, SessionView>,
    now: Timestamp,
) -> Map<Seq<char>, SessionView> {
    sessions.restrict(
        Set::new(|token: Seq<char>| sessions.contains_key(token) && sessions[token].live(now)),
    )
}

/// How many seats are taken in all rooms together.
pub open spec fn seats_taken(rooms: Map<Seq<char>, RoomView>) -> nat
    decreases rooms.len(),
{
    if rooms.dom().finite() && rooms.len() > 0 {
        let id = rooms.dom().choose();
        rooms[id].players.len() + seats_taken(rooms.remove(id))
    } else {
        0
    }
}

/// A state without rooms and sessions.
pub open spec fn initial(password: Seq<char>) -> StateView {
    StateView {
        rooms: Map::empty(),
        sessions: Map::empty(),
        channels: Map::empty(),
        ready: Map::empty(),
        password,
    }
}

/// The seats taken can be counted starting with any room.
pub proof fn lemma_seats_taken_remove(rooms: Map<Seq<char>, RoomView>, id: Seq<char>)
    requires
        rooms.dom().finite(),
        rooms.contains_key(id),
    ensures
        seats_taken(rooms) == rooms[id].players.len() + seats_taken(rooms.remove(id)),
    decreases rooms.len(),
{
    let first = rooms.dom().choose();
    assert(rooms.dom().contains(id));
    assert(rooms.len() > 0);
    assert(rooms.dom().contains(first));
    if first != id {
        let rest = rooms.remove(first);
        lemma_seats_taken_remove(rest, id);
        lemma_seats_taken_remove(rooms.remove(id), first);
        assert(rest.remove(id) =~= rooms.remove(id).remove(first));
    }
}

/// Fewer rooms have no more seats taken.
pub proof fn lemma_seats_taken_within(
    some: Map<Seq<char>, RoomView>,
    all: Map<Seq<char>, RoomView>,
)
    requires
        all.dom().finite(),
        some.dom().finite(),
        some.submap_of(all),
    ensures
        seats_taken(some) <= seats_taken(all),
    decreases some.len(),
{
    if some.len() > 0 {
        let first = some.dom().choose();
        assert(some.dom().contains(first));
        assert(all.dom().contains(first));
        assert(all[first] == some[first]);
        lemma_seats_taken_within(some.remove(first), all.remove(first));
        lemma_seats_taken_remove(all, first);
    }
}

/// Rooms with at most that many players each have at most that many times their number in all.
pub proof fn lemma_seats_taken_bound(rooms: Map<Seq<char>, RoomView>, bound: nat)
    requires
        rooms.dom().finite(),
        forall|id: Seq<char>| #[trigger]
            rooms.contains_key(id) ==> rooms[id].players.len() <= bound,
    ensures
        seats_taken(rooms) <= rooms.len() * bound,
    decreases rooms.len(),
{
    if rooms.len() > 0 {
        let first = rooms.dom().choose();
        assert(rooms.dom().contains(first));
        let rest = rooms.remove(first);
        assert forall|id: Seq<char>| #[trigger] rest.contains_key(id) implies rest[id].players.len()
            <= bound by {
            assert(rooms.contains_key(id));
        }
        lemma_seats_taken_bound(rest, bound);
        assert(rooms.len() * bound == (rooms.len() - 1) * bound + bound) by (nonlinear_arith);
        assert(rooms.contains_key(first));
    } else {
        assert(0 * bound == 0) by (nonlinear_arith);
    }
}

/// Taking out a session keeps [`StateView::inv`].
pub proof fn lemma_session_dropped(s: StateView, token: Seq<char>)
    requires
        s.inv(),
    ensures
        s.without_session(token).inv(),
{
    let after = s.without_session(token);
    assert forall|t: Seq<char>| #[trigger]
        after.sessions.contains_key(t) implies after.sessions[t].inv() by {
        assert(s.sessions.contains_key(t));
    }
}

/// Putting a sound session under a token keeps [`StateView::inv`].
pub proof fn lemma_session_put(s: StateView, token: Seq<char>, session: SessionView)
    requires
        s.inv(),
        session.inv(),
    ensures
        s.with_session(token, session).inv(),
{
    let after = s.with_session(token, session);
    assert forall|t: Seq<char>| #[trigger]
        after.sessions.contains_key(t) implies after.sessions[t].inv() by {
        if t != token {
            assert(s.sessions.contains_key(t));
        }
    }
}

/// Keeping only the open sessions keeps [`StateView::inv`].
pub proof fn lemma_sessions_pruned(s: StateView, now: Timestamp)
    requires
        s.inv(),
    ensures
        s.with_live_sessions(now).inv(),
{
    let after = s.with_live_sessions(now);
    assert forall|t: Seq<char>| #[trigger]
        after.sessions.contains_key(t) implies after.sessions[t].inv() by {
        assert(s.sessions.contains_key(t));
    }
}

/// Making a player ready, or not ready, keeps [`StateView::inv`].
pub proof fn lemma_ready_set(s: StateView, id: Seq<char>, player: Seq<char>, flag: bool)
    requires
        s.inv(),
    ensures
        s.ready_set(id, player, flag).inv(),
        s.ready_opened(id).inv(),
        s.unready(id, player).inv(),
{
    let list = s.ready_in(id);
    assert(list.no_duplicates());
    text::lemma_without(list, player);
    assert(!list.contains(player) ==> list.push(player).no_duplicates());
    lemma_with_ready(s, id, text::without(list, player));
    lemma_with_ready(s, id, list);
    if !list.contains(player) {
        lemma_with_ready(s, id, list.push(player));
    }
}

/// A list of ready players without repetition keeps [`StateView::inv`].
pub proof fn lemma_with_ready(s: StateView, id: Seq<char>, list: Seq<Seq<char>>)
    requires
        s.inv(),
        list.no_duplicates(),
    ensures
        s.with_ready(id, list).inv(),
{
    let after = s.with_ready(id, list);
    assert forall|k: Seq<char>| #[trigger]
        after.ready.contains_key(k) implies after.ready[k].no_duplicates() by {
        if k != id {
            assert(s.ready.contains_key(k));
        }
    }
    assert forall|k: Seq<char>| #[trigger] after.rooms.contains_key(k) implies {
        &&& after.rooms[k].id == k
        &&& after.rooms[k].inv()
        &&& after.channels.contains_key(k)
        &&& after.ready.contains_key(k)
    } by {
        assert(s.rooms.contains_key(k));
    }
}

/// Taking a room down keeps [`StateView::inv`].
pub proof fn lemma_room_dropped(s: StateView, id: Seq<char>)
    requires
        s.inv(),
    ensures
        s.without_room(id).inv(),
{
    let after = s.without_room(id);
    assert forall|k: Seq<char>| #[trigger] after.rooms.contains_key(k) implies {
        &&& after.rooms[k].id == k
        &&& after.rooms[k].inv()
        &&& after.channels.contains_key(k)
        &&& after.ready.contains_key(k)
    } by {
        assert(s.rooms.contains_key(k));
    }
    assert forall|k: Seq<char>| #[trigger]
        after.ready.contains_key(k) implies after.ready[k].no_duplicates() by {
        assert(s.ready.contains_key(k));
    }
    assert forall|k: Seq<char>| #[trigger]
        after.channels.contains_key(k) implies channel::channel_capacity(after.channels[k])
        == channel::CHANNEL_CAPACITY by {
        assert(s.channels.contains_key(k));
    }
    assert forall|a: Seq<char>, b: Seq<char>|
        a != b && #[trigger] after.channels.contains_key(a)
            && #[trigger] after.channels.contains_key(b) implies after.channels[a]
        != after.channels[b] by {
        assert(s.channels.contains_key(a) && s.channels.contains_key(b));
    }
}

/// Putting a sound room under its id keeps [`StateView::inv`], where a channel and a list of
/// ready players stand under that id.
pub proof fn lemma_room_put(s: StateView, id: Seq<char>, room: RoomView)
    requires
        s.inv(),
        s.channels.contains_key(id),
        s.ready.contains_key(id),
        room.id == id,
        room.inv(),
    ensures
        s.with_room(id, room).inv(),
{
    let after = s.with_room(id, room);
    assert forall|k: Seq<char>| #[trigger] after.rooms.contains_key(k) implies {
        &&& after.rooms[k].id == k
        &&& after.rooms[k].inv()
        &&& after.channels.contains_key(k)
        &&& after.ready.contains_key(k)
    } by {
        if k != id {
            assert(s.rooms.contains_key(k));
        }
    }
}

/// Putting a channel of the common capacity that no id has under an id keeps
/// [`StateView::inv`].
pub proof fn lemma_channel_put(s: StateView, id: Seq<char>, tx: Sender<String>)
    requires
        s.inv(),
        channel::channel_capacity(tx) == channel::CHANNEL_CAPACITY,
        s.apart(tx),
    ensures
        s.with_channel(id, tx).inv(),
        s.channel_opened(id, tx).inv(),
{
    let after = s.with_channel(id, tx);
    assert forall|k: Seq<char>| #[trigger] after.rooms.contains_key(k) implies {
        &&& after.rooms[k].id == k
        &&& after.rooms[k].inv()
        &&& after.channels.contains_key(k)
        &&& after.ready.contains_key(k)
    } by {
        assert(s.rooms.contains_key(k));
    }
    assert forall|k: Seq<char>| #[trigger]
        after.channels.contains_key(k) implies channel::channel_capacity(after.channels[k])
        == channel::CHANNEL_CAPACITY by {
        if k != id {
            assert(s.channels.contains_key(k));
        }
    }
    assert forall|a: Seq<char>, b: Seq<char>|
        a != b && #[trigger] after.channels.contains_key(a)
            && #[trigger] after.channels.contains_key(b) implies after.channels[a]
        != after.channels[b] by {
        if a != id {
            assert(s.channels.contains_key(a));
        }
        if b != id {
            assert(s.channels.contains_key(b));
        }
    }
}

/// A player's departure keeps [`StateView::inv`].
pub proof fn lemma_left(s: StateView, id: Seq<char>, player: Seq<char>)
    requires
        s.inv(),
        s.rooms.contains_key(id),
    ensures
        s.left(id, player).inv(),
{
    room::lemma_departed(s.rooms[id], player);
    if s.rooms[id].departed(player).players.len() == 0 {
        lemma_room_dropped(s, id);
    } else {
        lemma_room_put(s, id, s.rooms[id].departed(player));
    }
}

/// A player's seating keeps [`StateView::inv`].
pub proof fn lemma_seated_in(s: StateView, id: Seq<char>, player: Seq<char>)
    requires
        s.inv(),
        s.rooms.contains_key(id),
        player.len() > 0,
    ensures
        s.with_room(id, s.rooms[id].seated(player)).inv(),
{
    room::lemma_seated(s.rooms[id], player);
    lemma_room_put(s, id, s.rooms[id].seated(player));
}

} // verus!
