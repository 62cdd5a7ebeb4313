//! All that the server keeps: rooms, administrator sessions, channels and ready players.
use tokio::sync::broadcast::Sender;
use vstd::prelude::*;
use crate::channel;
use crate::clock::Timestamp;
use crate::model::{self, SessionView, StateView};
use crate::room::{self, Room, RoomView};
use crate::table::{self, Table};
use crate::text;

verus! {

/// An administrator who is logged in.
#[derive(Debug)]
pub struct AdminSession {
    pub username: String,
    pub created_at: Timestamp,
    pub expires_at: Timestamp,
}

impl View for AdminSession {
    type V = SessionView;

    open spec fn view(&self) -> SessionView {
        SessionView {
            username: self.username@,
            created_at: self.created_at,
            expires_at: self.expires_at,
        }
    }
}

impl Clone for AdminSession {
    fn clone(&self) -> (r: Self)
        ensures
            r@ == self@,
    {
        AdminSession {
            username: self.username.clone(),
            created_at: self.created_at,
            expires_at: self.expires_at,
        }
    }
}

/// All that the server keeps.
pub struct AppState {
    pub(crate) rooms: Table<Room>,
    pub(crate) admin_sessions: Table<AdminSession>,
    pub(crate) room_channels: Table<Sender<String>>,
    pub(crate) room_ready: Table<Vec<String>>,
    pub(crate) admin_password: String,
}

impl View for AppState {
    type V = StateView;

    closed spec fn view(&self) -> StateView {
        StateView {
            rooms: self.rooms@.map_values(|r: Room| r@),
            sessions: self.admin_sessions@.map_values(|s: AdminSession| s@),
            channels: self.room_channels@,
            ready: self.room_ready@.map_values(|list: Vec<String>| text::texts(list@)),
            password: self.admin_password@,
        }
    }
}

/// Putting a value into a map and looking at it, in either order.
pub proof fn lemma_map_values_insert<A, B>(
    m: Map<Seq<char>, A>,
    f: spec_fn(A) -> B,
    key: Seq<char>,
    value: A,
)
    ensures
        m.insert(key, value).map_values(f) == m.map_values(f).insert(key, f(value)),
{
    assert(m.insert(key, value).map_values(f) =~= m.map_values(f).insert(key, f(value)));
}

/// Taking a key out of a map and looking at the values, in either order.
pub proof fn lemma_map_values_remove<A, B>(
    m: Map<Seq<char>, A>,
    f: spec_fn(A) -> B,
    key: Seq<char>,
)
    ensures
        m.remove(key).map_values(f) == m.map_values(f).remove(key),
{
    assert(m.remove(key).map_values(f) =~= m.map_values(f).remove(key));
}

impl AppState {
    /// The tables have no key twice.
    pub closed spec fn sound(&self) -> bool {
        &&& self.rooms.wf()
        &&& self.admin_sessions.wf()
        &&& self.room_channels.wf()
        &&& self.room_ready.wf()
    }

    /// What holds of every state.
    pub open spec fn wf(&self) -> bool {
        self.sound() && self@.inv()
    }

    /// Whether that is the administrator's password.
    pub(crate) fn is_password(&self, password: &String) -> (r: bool)
        ensures
            r == (password@ == self@.password),
    {
        *password == self.admin_password
    }

    /// The room of that id.
    pub(crate) fn find_room(&self, id: &String) -> (r: Option<&Room>)
        requires
            self.sound(),
        ensures
            match r {
                Some(room) => self@.rooms.contains_key(id@) && room@ == self@.rooms[id@],
                None => !self@.rooms.contains_key(id@),
            },
    {
        self.rooms.get(id)
    }

    /// Gives `player` a seat in the room of that id, and says what the room then is.
    pub(crate) fn seat_player(&mut self, id: &String, player: &String) -> (r: Option<Room>)
        requires
            old(self).sound(),
        ensures
            final(self).sound(),
            match r {
                Some(room) => {
                    &&& old(self)@.rooms.contains_key(id@)
                    &&& room@ == old(self)@.rooms[id@].seated(player@)
                    &&& final(self)@ == old(self)@.with_room(id@, room@)
                },
                None => !old(self)@.rooms.contains_key(id@) && final(self)@ == old(self)@,
            },
    {
        let ghost before = self.rooms@;
        match self.rooms.get_mut(id) {
            Some(room) => {
                room.seat(player);
                let snapshot = room.clone();
                proof {
                    lemma_map_values_insert(before, |r: Room| r@, id@, *room);
                    assert(self@ =~= old(self)@.with_room(id@, snapshot@));
                }
                Some(snapshot)
            },
            None => None,
        }
    }

    /// Takes `player` out of the room of that id, takes the room down if it is empty then, and
    /// says what the room was last.
    pub(crate) fn leave(&mut self, id: &String, player: &String) -> (r: Option<Room>)
        requires
            old(self).sound(),
        ensures
            final(self).sound(),
            match r {
                Some(room) => {
                    &&& old(self)@.rooms.contains_key(id@)
                    &&& room@ == old(self)@.rooms[id@].departed(player@)
                    &&& final(self)@ == old(self)@.left(id@, player@)
                },
                None => !old(self)@.rooms.contains_key(id@) && final(self)@ == old(self)@,
            },
    {
        let ghost before = self.rooms@;
        let snapshot = match self.rooms.get_mut(id) {
            Some(room) => {
                room.depart(player);
                let snapshot = room.clone();
                proof {
                    lemma_map_values_insert(before, |r: Room| r@, id@, *room);
                    assert(self@ =~= old(self)@.with_room(id@, snapshot@));
                }
                snapshot
            },
            None => {
                return None;
            },
        };
        if snapshot.players.is_empty() {
            self.drop_room(id);
            assert(self@ =~= old(self)@.left(id@, player@));
        }
        Some(snapshot)
    }

    /// Takes down a room, its channel and its ready players, and says whether there was a room.
    pub(crate) fn drop_room(&mut self, id: &String) -> (r: bool)
        requires
            old(self).sound(),
        ensures
            final(self).sound(),
            final(self)@ == old(self)@.without_room(id@),
            r == old(self)@.rooms.contains_key(id@),
    {
        let r = self.rooms.remove(id);
        self.room_channels.remove(id);
        self.room_ready.remove(id);
        proof {
            lemma_map_values_remove(old(self).rooms@, |r: Room| r@, id@);
            lemma_map_values_remove(
                old(self).room_ready@,
                |list: Vec<String>| text::texts(list@),
                id@,
            );
            assert(self@ =~= old(self)@.without_room(id@));
        }
        r
    }

    /// Puts a room under its id.
    pub(crate) fn put_room(&mut self, id: &String, room: Room)
        requires
            old(self).sound(),
        ensures
            final(self).sound(),
            final(self)@ == old(self)@.with_room(id@, room@),
    {
        self.rooms.insert(id.clone(), room);
        proof {
            lemma_map_values_insert(old(self).rooms@, |r: Room| r@, id@, room);
            assert(self@ =~= old(self)@.with_room(id@, room@));
        }
    }

    /// The channel of a room.
    pub(crate) fn find_channel(&self, id: &String) -> (r: Option<Sender<String>>)
        requires
            self.sound(),
        ensures
            match r {
                Some(tx) => self@.channels.contains_key(id@) && tx == self@.channels[id@],
                None => !self@.channels.contains_key(id@),
            },
    {
        match self.room_channels.get(id) {
            Some(tx) => Some(tx.clone()),
            None => None,
        }
    }

    /// A new channel, which no id has.
    pub(crate) fn fresh_channel(&self) -> (r: Sender<String>)
        ensures
            channel::channel_capacity(r) == channel::CHANNEL_CAPACITY,
            self@.apart(r),
    {
        channel::open_channel(channel::CHANNEL_CAPACITY, &self.room_channels)
    }

    /// Puts a channel under the id of a room.
    pub(crate) fn put_channel(&mut self, id: &String, tx: Sender<String>)
        requires
            old(self).sound(),
        ensures
            final(self).sound(),
            final(self)@ == old(self)@.with_channel(id@, tx),
    {
        self.room_channels.insert(id.clone(), tx);
    }

    /// The players who are ready in a room.
    pub(crate) fn find_ready(&self, id: &String) -> (r: Vec<String>)
        requires
            self.sound(),
        ensures
            text::texts(r@) == self@.ready_in(id@),
    {
        match self.room_ready.get(id) {
            Some(list) => text::clone_texts(list),
            None => {
                let r: Vec<String> = Vec::new();
                assert(text::texts(r@) =~= Seq::empty());
                r
            },
        }
    }

    /// Whether a room has a list of ready players.
    pub(crate) fn has_ready(&self, id: &String) -> (r: bool)
        requires
            self.sound(),
        ensures
            r == self@.ready.contains_key(id@),
    {
        self.room_ready.contains_key(id)
    }

    /// Puts a list of ready players under the id of a room.
    pub(crate) fn put_ready(&mut self, id: &String, list: Vec<String>)
        requires
            old(self).sound(),
        ensures
            final(self).sound(),
            final(self)@ == old(self)@.with_ready(id@, text::texts(list@)),
    {
        self.room_ready.insert(id.clone(), list);
        proof {
            lemma_map_values_insert(
                old(self).room_ready@,
                |list: Vec<String>| text::texts(list@),
                id@,
                list,
            );
            assert(self@ =~= old(self)@.with_ready(id@, text::texts(list@)));
        }
    }

    /// Makes `player` ready in a room, or not ready.
    pub(crate) fn set_ready(&mut self, id: &String, player: &String, flag: bool)
        requires
            old(self).sound(),
        ensures
            final(self).sound(),
            final(self)@ == old(self)@.ready_set(id@, player@, flag),
    {
        let mut list = self.find_ready(id);
        if !flag {
            list = text::without_text(&list, player);
        } else if !text::contains_text(&list, player) {
            text::push_text(&mut list, player);
        }
        self.put_ready(id, list);
    }

    /// Makes `player` not ready in a room, if it has a list of ready players.
    pub(crate) fn clear_ready(&mut self, id: &String, player: &String)
        requires
            old(self).sound(),
        ensures
            final(self).sound(),
            final(self)@ == old(self)@.unready(id@, player@),
    {
        if self.has_ready(id) {
            self.set_ready(id, player, false);
        }
    }

    /// The session of a token.
    pub(crate) fn find_session(&self, token: &String) -> (r: Option<&AdminSession>)
        requires
            self.sound(),
        ensures
            match r {
                Some(session) => self@.sessions.contains_key(token@) && session@
                    == self@.sessions[token@],
                None => !self@.sessions.contains_key(token@),
            },
    {
        self.admin_sessions.get(token)
    }

    /// Puts a session under a token.
    pub(crate) fn put_session(&mut self, token: String, session: AdminSession)
        requires
            old(self).sound(),
        ensures
            final(self).sound(),
            final(self)@ == old(self)@.with_session(token@, session@),
    {
        self.admin_sessions.insert(token, session);
        proof {
            lemma_map_values_insert(
                old(self).admin_sessions@,
                |s: AdminSession| s@,
                token@,
                session,
            );
            assert(self@ =~= old(self)@.with_session(token@, session@));
        }
    }

    /// Takes out the session of a token, if there is one.
    pub(crate) fn drop_session(&mut self, token: &String)
        requires
            old(self).sound(),
        ensures
            final(self).sound(),
            final(self)@ == old(self)@.without_session(token@),
    {
        self.admin_sessions.remove(token);
        proof {
            lemma_map_values_remove(old(self).admin_sessions@, |s: AdminSession| s@, token@);
            assert(self@ =~= old(self)@.without_session(token@));
        }
    }

    /// The number of rooms.
    pub fn room_count(&self) -> (r: usize)
        requires
            self.sound(),
        ensures
            self@.rooms.dom().finite(),
            r == self@.rooms.len(),
    {
        let r = self.rooms.len();
        assert(self@.rooms.dom() =~= self.rooms@.dom());
        r
    }

    /// The number of sessions that are kept, over or not.
    pub fn session_count(&self) -> (r: usize)
        requires
            self.sound(),
        ensures
            self@.sessions.dom().finite(),
            r == self@.sessions.len(),
    {
        let r = self.admin_sessions.len();
        assert(self@.sessions.dom() =~= self.admin_sessions@.dom());
        r
    }
}

impl AppState {
    /// Takes out the sessions that are no longer open at that time.
    pub(crate) fn retain_live_sessions(&mut self, now: &Timestamp)
        requires
            old(self).sound(),
        ensures
            final(self).sound(),
            final(self)@ == old(self)@.with_live_sessions(*now),
    {
        let ghost f = |s: AdminSession| s@;
        let mut i: usize = 0;
        while i < self.admin_sessions.len()
            invariant
                self.sound(),
                i <= self.admin_sessions.list().len(),
                f == |s: AdminSession| s@,
                forall|j: int|
                    0 <= j < i ==> (#[trigger] self.admin_sessions.list()[j]).1@.live(*now),
                self@.with_live_sessions(*now) == old(self)@.with_live_sessions(*now),
            decreases self.admin_sessions.list().len() - i,
        {
            let ghost before = self@;
            let ghost table = self.admin_sessions@;
            let ghost list = self.admin_sessions.list();
            if self.admin_sessions.value_at(i).expires_at.is_after(now) {
                i = i + 1;
            } else {
                let ghost token = list[i as int].0;
                proof {
                    table::lemma_map_of(list, i as int);
                    lemma_map_values_remove(table, f, token);
                }
                self.admin_sessions.remove_at(i);
                proof {
                    assert(self@ =~= before.without_session(token));
                    assert(model::live_sessions(self@.sessions, *now) =~= model::live_sessions(
                        before.sessions,
                        *now,
                    ));
                    assert forall|j: int| 0 <= j < i implies (
                    #[trigger] self.admin_sessions.list()[j]).1@.live(*now) by {
                        assert(list[j].1@.live(*now));
                    }
                }
            }
        }
        proof {
            let list = self.admin_sessions.list();
            assert forall|token: Seq<char>| #[trigger]
                self@.sessions.contains_key(token) implies self@.sessions[token].live(*now) by {
                let j = table::place_of(list, token);
                assert(table::has_key(list, token));
                table::lemma_map_of(list, j);
                assert(list[j].1@.live(*now));
            }
            assert(model::live_sessions(self@.sessions, *now) =~= self@.sessions);
            assert(self@ =~= self@.with_live_sessions(*now));
        }
    }

    /// How many seats are taken in all rooms together.
    pub fn connected_players(&self) -> (r: usize)
        requires
            self.wf(),
            model::seats_taken(self@.rooms) <= usize::MAX,
        ensures
            r == model::seats_taken(self@.rooms),
    {
        let ghost list = self.rooms.list();
        let mut total: usize = 0;
        let mut i: usize = 0;
        assert(rooms_up_to(list, 0) =~= Map::empty());
        assert(rooms_up_to(list, list.len() as int) =~= self@.rooms) by {
            assert(list.take(list.len() as int) =~= list);
        }
        proof {
            table::lemma_map_of_len(list);
            assert(self@.rooms.dom() =~= self.rooms@.dom());
        }
        while i < self.rooms.len()
            invariant
                self.wf(),
                list == self.rooms.list(),
                self@.rooms.dom().finite(),
                model::seats_taken(self@.rooms) <= usize::MAX,
                i <= list.len(),
                rooms_up_to(list, i as int).dom().finite(),
                total == model::seats_taken(rooms_up_to(list, i as int)),
            decreases list.len() - i,
        {
            let ghost id = list[i as int].0;
            let ghost before = rooms_up_to(list, i as int);
            let ghost after = rooms_up_to(list, i + 1);
            proof {
                table::lemma_map_of(list, i as int);
                assert(self@.rooms.contains_key(id));
                assert(self@.rooms[id] == list[i as int].1@);
                assert(after =~= before.insert(id, list[i as int].1@)) by {
                    lemma_rooms_up_to(list, i as int);
                }
                assert(!before.contains_key(id)) by {
                    lemma_rooms_up_to(list, i as int);
                }
                assert(after.remove(id) =~= before);
                model::lemma_seats_taken_remove(after, id);
                assert(after.submap_of(self@.rooms)) by {
                    lemma_rooms_within(list, i + 1);
                }
                model::lemma_seats_taken_within(after, self@.rooms);
            }
            total = total + self.rooms.value_at(i).players.len();
            i = i + 1;
        }
        total
    }

    /// The rooms, the older ones before the newer ones.
    pub fn list_rooms(&self) -> (r: Vec<Room>)
        requires
            self.wf(),
        ensures
            r.len() == self@.rooms.len(),
            forall|i: int|
                0 <= i < r.len() ==> {
                    &&& self@.rooms.contains_key((#[trigger] r@[i])@.id)
                    &&& r@[i]@ == self@.rooms[r@[i]@.id]
                },
            forall|i: int, j: int|
                0 <= i < j < r.len() ==> (#[trigger] r@[i])@.id != (#[trigger] r@[j])@.id,
            forall|id: Seq<char>| #[trigger]
                self@.rooms.contains_key(id) ==> exists|i: int|
                    0 <= i < r.len() && (#[trigger] r@[i])@.id == id,
            forall|i: int, j: int|
                0 <= i < j < r.len() ==> !(#[trigger] r@[i])@.created_at.after(
                    (#[trigger] r@[j])@.created_at,
                ),
    {
        let ghost list = self.rooms.list();
        let ghost mut places: Seq<int> = Seq::empty();
        let mut r: Vec<Room> = Vec::new();
        let mut i: usize = 0;
        proof {
            table::lemma_map_of_len(list);
            assert(self@.rooms.dom() =~= self.rooms@.dom());
        }
        while i < self.rooms.len()
            invariant
                self.wf(),
                list == self.rooms.list(),
                i <= list.len(),
                r.len() == i,
                places.len() == i,
                places.no_duplicates(),
                forall|j: int| 0 <= j < i ==> 0 <= #[trigger] places[j] < i,
                forall|k: int| 0 <= k < i ==> #[trigger] places.contains(k),
                forall|j: int| 0 <= j < i ==> (#[trigger] r@[j])@ == list[places[j]].1@,
                sorted_by_age(r@),
            decreases list.len() - i,
        {
            let ghost before = r@;
            let room = self.rooms.value_at(i).clone();
            let place = insert_by_age(&mut r, room);
            proof {
                let older = places;
                places = older.insert(place as int, i as int);
                assert(places.no_duplicates());
                assert forall|k: int| 0 <= k < i + 1 implies #[trigger] places.contains(k) by {
                    if k < i {
                        assert(older.contains(k));
                        let j = choose|j: int| 0 <= j < older.len() && older[j] == k;
                        assert(places[if j < place { j } else { j + 1 }] == k);
                    } else {
                        assert(places[place as int] == k);
                    }
                }
                assert forall|j: int| 0 <= j < i + 1 implies (#[trigger] r@[j])@
                    == list[places[j]].1@ by {
                    if j < place {
                        assert(r@[j] == before[j]);
                    } else if j > place {
                        assert(r@[j] == before[j - 1]);
                    }
                }
            }
            i = i + 1;
        }
        proof {
            assert forall|j: int| 0 <= j < r.len() implies {
                &&& self@.rooms.contains_key((#[trigger] r@[j])@.id)
                &&& r@[j]@ == self@.rooms[r@[j]@.id]
                &&& r@[j]@.id == list[places[j]].0
            } by {
                table::lemma_map_of(list, places[j]);
                assert(self@.rooms.contains_key(list[places[j]].0));
            }
            assert forall|j: int, k: int| 0 <= j < k < r.len() implies (#[trigger] r@[j])@.id != (
            #[trigger] r@[k])@.id by {
                assert(places[j] != places[k]);
                assert(r@[j]@.id == list[places[j]].0);
                assert(r@[k]@.id == list[places[k]].0);
            }
            assert forall|id: Seq<char>| #[trigger] self@.rooms.contains_key(id) implies exists|j: int|
                0 <= j < r.len() && (#[trigger] r@[j])@.id == id by {
                let k = table::place_of(list, id);
                assert(table::has_key(list, id));
                assert(places.contains(k));
                let j = choose|j: int| 0 <= j < places.len() && places[j] == k;
                assert(r@[j]@.id == list[places[j]].0);
            }
        }
        r
    }
}

/// The rooms of the first entries of a table.
spec fn rooms_up_to(list: Seq<(Seq<char>, Room)>, n: int) -> Map<Seq<char>, RoomView> {
    table::map_of(list.take(n)).map_values(|r: Room| r@)
}

/// The rooms of the first entries of a table, with one entry more.
proof fn lemma_rooms_up_to(list: Seq<(Seq<char>, Room)>, n: int)
    requires
        table::distinct_keys(list),
        0 <= n < list.len(),
    ensures
        !rooms_up_to(list, n).contains_key(list[n].0),
        rooms_up_to(list, n + 1) == rooms_up_to(list, n).insert(list[n].0, list[n].1@),
{
    let front = list.take(n);
    assert(table::distinct_keys(front)) by {
        assert forall|i: int, j: int|
            0 <= i < front.len() && 0 <= j < front.len() && (#[trigger] front[i]).0 == (
            #[trigger] front[j]).0 implies i == j by {
            assert(list[i].0 == list[j].0);
        }
    }
    assert(!table::has_key(front, list[n].0)) by {
        if table::has_key(front, list[n].0) {
            let i = table::place_of(front, list[n].0);
            assert(list[i].0 == list[n].0);
        }
    }
    assert(list.take(n + 1) =~= front.push(list[n]));
    table::lemma_map_of_push(front, list[n].0, list[n].1);
    lemma_map_values_insert(table::map_of(front), |r: Room| r@, list[n].0, list[n].1);
}

/// The first entries of a table hold none but its rooms.
proof fn lemma_rooms_within(list: Seq<(Seq<char>, Room)>, n: int)
    requires
        table::distinct_keys(list),
        0 <= n <= list.len(),
    ensures
        rooms_up_to(list, n).submap_of(table::map_of(list).map_values(|r: Room| r@)),
{
    let front = list.take(n);
    assert(table::distinct_keys(front)) by {
        assert forall|i: int, j: int|
            0 <= i < front.len() && 0 <= j < front.len() && (#[trigger] front[i]).0 == (
            #[trigger] front[j]).0 implies i == j by {
            assert(list[i].0 == list[j].0);
        }
    }
    assert forall|k: Seq<char>| table::has_key(front, k) implies table::has_key(list, k)
        && table::map_of(front)[k] == #[trigger] table::map_of(list)[k] by {
        let i = table::place_of(front, k);
        assert(list[i].0 == k);
        table::lemma_map_of(front, i);
        table::lemma_map_of(list, i);
    }
}

/// Older rooms stand before newer ones.
spec fn sorted_by_age(list: Seq<Room>) -> bool {
    forall|i: int, j: int|
        0 <= i < j < list.len() ==> !(#[trigger] list[i])@.created_at.after(
            (#[trigger] list[j])@.created_at,
        )
}

/// Puts a room behind the rooms that are not newer, and says where.
fn insert_by_age(list: &mut Vec<Room>, room: Room) -> (place: usize)
    requires
        sorted_by_age(old(list)@),
    ensures
        place <= old(list).len(),
        final(list)@ == old(list)@.insert(place as int, room),
        sorted_by_age(final(list)@),
{
    let mut place: usize = list.len();
    while place > 0 && list[place - 1].created_at.is_after(&room.created_at)
        invariant
            place <= list.len(),
            list@ == old(list)@,
            forall|j: int|
                place <= j < list.len() ==> (#[trigger] list@[j]).created_at.after(
                    room.created_at,
                ),
        decreases place,
    {
        place = place - 1;
    }
    let ghost before = list@;
    proof {
        if place > 0 {
            assert forall|j: int| 0 <= j < place implies !(#[trigger] before[j]).created_at.after(
                room.created_at,
            ) by {
                let k = place - 1;
                assert(!before[k].created_at.after(room.created_at));
                if j < k {
                    assert(!before[j]@.created_at.after(before[k]@.created_at));
                }
            }
        }
    }
    list.insert(place, room);
    proof {
        assert forall|i: int, j: int| 0 <= i < j < list@.len() implies !(
        #[trigger] list@[i])@.created_at.after((#[trigger] list@[j])@.created_at) by {
            let a = if i < place { i } else { i - 1 };
            let b = if j < place { j } else { j - 1 };
            if i != place && j != place {
                assert(!before[a]@.created_at.after(before[b]@.created_at));
            } else if i == place {
                assert(before[b].created_at.after(room.created_at));
            } else {
                assert(!before[a].created_at.after(room.created_at));
            }
        }
    }
    place
}

/// A state without rooms and sessions, in which that password logs the administrator in.
pub fn create_state(admin_password: String) -> (r: AppState)
    ensures
        r.wf(),
        r@ == model::initial(admin_password@),
{
    let r = AppState {
        rooms: Table::new(),
        admin_sessions: Table::new(),
        room_channels: Table::new(),
        room_ready: Table::new(),
        admin_password,
    };
    assert(r@ =~= model::initial(admin_password@));
    r
}

} // verus!
