//! Rooms over HTTP: making, finding and taking them down, joining, leaving and removing players.
use axum::http::HeaderMap;
use tokio::sync::broadcast::Sender;
use vstd::prelude::*;
use crate::api::{
    self, ApiError, CreateRoomRequest, KickPlayerRequest, PlayerActionRequest, Refusal, StatusCode,
};
use crate::channel;
use crate::clock::{self, Timestamp};
use crate::headers;
use crate::ids;
use crate::model::{self, StateView};
use crate::room::{self, Room, RoomView};
use crate::state::AppState;
use crate::text;

verus! {

/// How many players a room is for, where that many are asked for: at least
/// [`room::MIN_ROOM_PLAYERS`], which is also what a room is for where none is asked for, and at
/// most [`room::MAX_ROOM_PLAYERS`].
pub open spec fn room_size(asked: Option<usize>) -> nat {
    match asked {
        Some(n) => if n < room::MIN_ROOM_PLAYERS {
            room::MIN_ROOM_PLAYERS as nat
        } else if n > room::MAX_ROOM_PLAYERS {
            room::MAX_ROOM_PLAYERS as nat
        } else {
            n as nat
        },
        None => room::MIN_ROOM_PLAYERS as nat,
    }
}

impl StateView {
    /// The state with a new room, its channel, and nobody ready in it.
    pub open spec fn with_new_room(
        self,
        id: Seq<char>,
        room: RoomView,
        tx: Sender<String>,
    ) -> StateView {
        self.with_channel(id, tx).with_ready(id, Seq::empty()).with_room(id, room)
    }

    /// The making of a room, by an administrator let through at `now`.
    pub open spec fn create(
        self,
        token: Option<Seq<char>>,
        name: Seq<char>,
        owner: Seq<char>,
        max_players: Option<usize>,
        now: Timestamp,
        id: Seq<char>,
        created_at: Timestamp,
        tx: Sender<String>,
    ) -> (StateView, Result<(StatusCode, RoomView), Refusal>) {
        let (seen, passed) = self.authenticate(token, now);
        if passed is Err {
            (seen, Err(passed->Err_0))
        } else if text::trimmed(name).len() == 0 {
            (seen, Err(api::blank_room_name()))
        } else if text::trimmed(owner).len() == 0 {
            (seen, Err(api::blank_owner()))
        } else {
            let room = room::new_room(
                id,
                text::trimmed(name),
                text::trimmed(owner),
                room_size(max_players),
                created_at,
            );
            (seen.with_new_room(id, room, tx), Ok((StatusCode::Created, room)))
        }
    }

    /// The taking down of a room, by an administrator let through at that time.
    pub open spec fn delete(self, token: Option<Seq<char>>, id: Seq<char>, now: Timestamp) -> (
        StateView,
        Result<StatusCode, Refusal>,
    ) {
        let (seen, passed) = self.authenticate(token, now);
        if passed is Err {
            (seen, Err(passed->Err_0))
        } else if seen.rooms.contains_key(id) {
            (seen.without_room(id), Ok(StatusCode::NoContent))
        } else {
            (seen.without_room(id), Err(api::no_such_room()))
        }
    }

    /// A player's coming into a room.
    pub open spec fn join(self, id: Seq<char>, name: Seq<char>) -> (
        StateView,
        Result<RoomView, Refusal>,
    ) {
        let player = text::trimmed(name);
        if player.len() == 0 {
            (self, Err(api::blank_player()))
        } else if !self.rooms.contains_key(id) {
            (self, Err(api::no_such_room()))
        } else if !self.rooms[id].players.contains(player) && self.rooms[id].full() {
            (self, Err(api::room_full()))
        } else {
            let room = self.rooms[id].seated(player);
            (self.with_room(id, room), Ok(room))
        }
    }

    /// A player's going out of a room. Whoever goes is no longer ready, even where there is no
    /// such room; a player who does not sit in the room can go too.
    pub open spec fn leave(self, id: Seq<char>, name: Seq<char>) -> (
        StateView,
        Result<RoomView, Refusal>,
    ) {
        let player = text::trimmed(name);
        let seen = self.unready(id, player);
        if player.len() == 0 {
            (self, Err(api::blank_player()))
        } else if !self.rooms.contains_key(id) {
            (seen, Err(api::no_such_room()))
        } else {
            (seen.left(id, player), Ok(self.rooms[id].departed(player)))
        }
    }

    /// The removal of a player from a room, asked for at that time by `requester` or with the
    /// token. The player is no longer ready, even where they do not sit in the room.
    pub open spec fn kick(
        self,
        token: Option<Seq<char>>,
        id: Seq<char>,
        requester: Option<Seq<char>>,
        name: Seq<char>,
        now: Timestamp,
    ) -> (StateView, Result<RoomView, Refusal>) {
        let target = text::trimmed(name);
        let asking = match requester {
            Some(r) => text::trimmed(r),
            None => Seq::empty(),
        };
        if target.len() == 0 {
            (self, Err(api::blank_target()))
        } else if !self.rooms.contains_key(id) {
            (self, Err(api::no_such_room()))
        } else {
            let (seen, permitted) = self.permit(token, self.rooms[id], asking, now);
            if permitted is Err {
                (seen, Err(permitted->Err_0))
            } else if !self.rooms[id].players.contains(target) {
                (seen.unready(id, target), Err(api::absent_target()))
            } else {
                (seen.unready(id, target).left(id, target), Ok(self.rooms[id].departed(target)))
            }
        }
    }
}

/// What the answer to the making of a room says.
pub open spec fn create_answer(r: Result<(StatusCode, Room), (StatusCode, ApiError)>) -> Result<
    (StatusCode, RoomView),
    Refusal,
> {
    match r {
        Ok((status, room)) => Ok((status, room@)),
        Err(e) => Err(api::refusal(e)),
    }
}

/// What the answer to the taking down of a room says.
pub open spec fn delete_answer(r: Result<StatusCode, (StatusCode, ApiError)>) -> Result<
    StatusCode,
    Refusal,
> {
    match r {
        Ok(status) => Ok(status),
        Err(e) => Err(api::refusal(e)),
    }
}

/// A new room keeps [`StateView::inv`].
pub proof fn lemma_new_room_put(s: StateView, id: Seq<char>, room: RoomView, tx: Sender<String>)
    requires
        s.inv(),
        room.id == id,
        room.inv(),
        channel::channel_capacity(tx) == channel::CHANNEL_CAPACITY,
        s.apart(tx),
    ensures
        s.with_new_room(id, room, tx).inv(),
{
    model::lemma_channel_put(s, id, tx);
    model::lemma_with_ready(s.with_channel(id, tx), id, Seq::empty());
    model::lemma_room_put(s.with_channel(id, tx).with_ready(id, Seq::empty()), id, room);
}

/// How many players a room is for, where that many are asked for.
pub fn clamp_room_size(asked: Option<usize>) -> (r: usize)
    ensures
        r == room_size(asked),
{
    match asked {
        Some(n) => if n < room::MIN_ROOM_PLAYERS {
            room::MIN_ROOM_PLAYERS
        } else if n > room::MAX_ROOM_PLAYERS {
            room::MAX_ROOM_PLAYERS
        } else {
            n
        },
        None => room::MIN_ROOM_PLAYERS,
    }
}

impl AppState {
    /// The room of that id.
    pub fn get_room(&self, room_id: &String) -> (r: Result<Room, (StatusCode, ApiError)>)
        requires
            self.wf(),
        ensures
            api::room_answer(r) == if self@.rooms.contains_key(room_id@) {
                Ok::<RoomView, Refusal>(self@.rooms[room_id@])
            } else {
                Err(api::no_such_room())
            },
    {
        match self.find_room(room_id) {
            Some(room) => Ok(room.clone()),
            None => Err(api::error_json(StatusCode::NotFound, "房间不存在")),
        }
    }

    /// Makes a room of that id, created at that time and with that channel, which no other room
    /// has, for an administrator let through at `now`.
    pub fn create_room_with(
        &mut self,
        headers: &HeaderMap,
        req: &CreateRoomRequest,
        now: &Timestamp,
        room_id: String,
        created_at: Timestamp,
        tx: Sender<String>,
    ) -> (r: Result<(StatusCode, Room), (StatusCode, ApiError)>)
        requires
            old(self).wf(),
            created_at.valid(),
            channel::channel_capacity(tx) == channel::CHANNEL_CAPACITY,
            old(self)@.apart(tx),
        ensures
            final(self).wf(),
            (final(self)@, create_answer(r)) == old(self)@.create(
                headers::admin_token(*headers),
                req.name@,
                req.owner@,
                req.max_players,
                *now,
                room_id@,
                created_at,
                tx,
            ),
    {
        if let Err(e) = self.ensure_admin_at(headers, now) {
            return Err(e);
        }
        let max_players = clamp_room_size(req.max_players);
        let owner = text::trim_text(req.owner.as_str());
        let name = text::trim_text(req.name.as_str());
        if name.as_str().is_empty() {
            return Err(api::error_json(StatusCode::BadRequest, "房间名不能为空"));
        }
        if owner.as_str().is_empty() {
            return Err(api::error_json(StatusCode::BadRequest, "房主不能为空"));
        }
        let ghost seen = self@;
        let room = Room::new(room_id.clone(), name, owner, max_players, created_at);
        proof {
            room::lemma_new_room(
                room_id@,
                text::trimmed(req.name@),
                text::trimmed(req.owner@),
                room_size(req.max_players),
                created_at,
            );
            lemma_new_room_put(seen, room_id@, room@, tx);
        }
        self.put_channel(&room_id, tx);
        let nobody: Vec<String> = Vec::new();
        assert(text::texts(nobody@) =~= Seq::empty());
        self.put_ready(&room_id, nobody);
        let answer = room.clone();
        self.put_room(&room_id, room);
        Ok((StatusCode::Created, answer))
    }

    /// Makes a room with an id drawn at random and a channel of its own, for an administrator.
    pub fn create_room(&mut self, headers: &HeaderMap, req: &CreateRoomRequest) -> (r: Result<
        (StatusCode, Room),
        (StatusCode, ApiError),
    >)
        requires
            old(self).wf(),
        ensures
            final(self).wf(),
            exists|now: Timestamp, id: Seq<char>, created_at: Timestamp, tx: Sender<String>|
                {
                    &&& now.valid() && created_at.valid()
                    &&& ids::is_uuid_text(id)
                    &&& channel::channel_capacity(tx) == channel::CHANNEL_CAPACITY
                    &&& old(self)@.apart(tx)
                    &&& (final(self)@, create_answer(r)) == #[trigger] old(self)@.create(
                        headers::admin_token(*headers),
                        req.name@,
                        req.owner@,
                        req.max_players,
                        now,
                        id,
                        created_at,
                        tx,
                    )
                },
    {
        let now = clock::utc_now();
        let room_id = ids::new_id();
        let created_at = clock::utc_now();
        let tx = self.fresh_channel();
        self.create_room_with(headers, req, &now, room_id, created_at, tx)
    }

    /// Takes down a room, for an administrator let through at that time.
    pub fn delete_room_at(&mut self, headers: &HeaderMap, room_id: &String, now: &Timestamp) -> (r:
        Result<StatusCode, (StatusCode, ApiError)>)
        requires
            old(self).wf(),
        ensures
            final(self).wf(),
            (final(self)@, delete_answer(r)) == old(self)@.delete(
                headers::admin_token(*headers),
                room_id@,
                *now,
            ),
    {
        if let Err(e) = self.ensure_admin_at(headers, now) {
            return Err(e);
        }
        proof {
            model::lemma_room_dropped(self@, room_id@);
        }
        if self.drop_room(room_id) {
            Ok(StatusCode::NoContent)
        } else {
            Err(api::error_json(StatusCode::NotFound, "房间不存在"))
        }
    }

    /// Takes down a room, for an administrator.
    pub fn delete_room(&mut self, headers: &HeaderMap, room_id: &String) -> (r: Result<
        StatusCode,
        (StatusCode, ApiError),
    >)
        requires
            old(self).wf(),
        ensures
            final(self).wf(),
            exists|now: Timestamp|
                now.valid() && (final(self)@, delete_answer(r)) == #[trigger] old(self)@.delete(
                    headers::admin_token(*headers),
                    room_id@,
                    now,
                ),
    {
        let now = clock::utc_now();
        self.delete_room_at(headers, room_id, &now)
    }

    /// Gives a player a seat in a room.
    pub fn join_room(&mut self, room_id: &String, req: &PlayerActionRequest) -> (r: Result<
        Room,
        (StatusCode, ApiError),
    >)
        requires
            old(self).wf(),
        ensures
            final(self).wf(),
            (final(self)@, api::room_answer(r)) == old(self)@.join(room_id@, req.player@),
    {
        let player = text::trim_text(req.player.as_str());
        if player.as_str().is_empty() {
            return Err(api::error_json(StatusCode::BadRequest, "玩家名不能为空"));
        }
        match self.find_room(room_id) {
            Some(room) => {
                if !room.admits(&player) {
                    return Err(api::error_json(StatusCode::Conflict, "房间已满"));
                }
            },
            None => {
                return Err(api::error_json(StatusCode::NotFound, "房间不存在"));
            },
        }
        proof {
            model::lemma_seated_in(self@, room_id@, player@);
        }
        match self.seat_player(room_id, &player) {
            Some(room) => Ok(room),
            None => Err(api::error_json(StatusCode::NotFound, "房间不存在")),
        }
    }

    /// Takes a player out of a room, and takes down the room if it is empty then.
    pub fn leave_room(&mut self, room_id: &String, req: &PlayerActionRequest) -> (r: Result<
        Room,
        (StatusCode, ApiError),
    >)
        requires
            old(self).wf(),
        ensures
            final(self).wf(),
            (final(self)@, api::room_answer(r)) == old(self)@.leave(room_id@, req.player@),
    {
        let player = text::trim_text(req.player.as_str());
        if player.as_str().is_empty() {
            return Err(api::error_json(StatusCode::BadRequest, "玩家名不能为空"));
        }
        proof {
            model::lemma_ready_set(self@, room_id@, player@, false);
        }
        self.clear_ready(room_id, &player);
        proof {
            if self@.rooms.contains_key(room_id@) {
                model::lemma_left(self@, room_id@, player@);
            }
        }
        match self.leave(room_id, &player) {
            Some(room) => Ok(room),
            None => Err(api::error_json(StatusCode::NotFound, "房间不存在")),
        }
    }

    /// Removes a player from a room, for an administrator of the room or, at that time, of the
    /// platform, and takes down the room if it is empty then.
    pub fn kick_player_at(
        &mut self,
        headers: &HeaderMap,
        room_id: &String,
        req: &KickPlayerRequest,
        now: &Timestamp,
    ) -> (r: Result<Room, (StatusCode, ApiError)>)
        requires
            old(self).wf(),
        ensures
            final(self).wf(),
            (final(self)@, api::room_answer(r)) == old(self)@.kick(
                headers::admin_token(*headers),
                room_id@,
                headers::text_of(req.requester),
                req.target@,
                *now,
            ),
    {
        let target = text::trim_text(req.target.as_str());
        if target.as_str().is_empty() {
            return Err(api::error_json(StatusCode::BadRequest, "目标玩家不能为空"));
        }
        let requester = match &req.requester {
            Some(name) => text::trim_text(name.as_str()),
            None => String::new(),
        };
        let room = match self.find_room(room_id) {
            Some(room) => room.clone(),
            None => {
                return Err(api::error_json(StatusCode::NotFound, "房间不存在"));
            },
        };
        if let Err(e) = self.ensure_room_admin_or_platform_admin_at(
            headers,
            &room,
            &requester,
            now,
        ) {
            return Err(e);
        }
        proof {
            model::lemma_ready_set(self@, room_id@, target@, false);
        }
        self.clear_ready(room_id, &target);
        if !room.has_player(&target) {
            return Err(api::error_json(StatusCode::NotFound, "目标玩家不在房间中"));
        }
        proof {
            model::lemma_left(self@, room_id@, target@);
        }
        match self.leave(room_id, &target) {
            Some(room) => Ok(room),
            None => Err(api::error_json(StatusCode::NotFound, "房间不存在")),
        }
    }

    /// Removes a player from a room, for an administrator of the room or of the platform, and
    /// takes down the room if it is empty then.
    pub fn kick_player(
        &mut self,
        headers: &HeaderMap,
        room_id: &String,
        req: &KickPlayerRequest,
    ) -> (r: Result<Room, (StatusCode, ApiError)>)
        requires
            old(self).wf(),
        ensures
            final(self).wf(),
            exists|now: Timestamp|
                now.valid() && (final(self)@, api::room_answer(r)) == #[trigger] old(self)@.kick(
                    headers::admin_token(*headers),
                    room_id@,
                    headers::text_of(req.requester),
                    req.target@,
                    now,
                ),
    {
        let now = clock::utc_now();
        self.kick_player_at(headers, room_id, req, &now)
    }
}

} // verus!
