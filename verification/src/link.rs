//! Players who are connected to a room: what they send, and what the room is told.
use tokio::sync::broadcast::Sender;
use vstd::prelude::*;
use crate::api::{self, ApiError, Refusal, StatusCode};
use crate::channel;
use crate::clock::{self, Timestamp};
use crate::json::{self, FieldView, JsonField, JsonValue, ValueView};
use crate::model::{self, StateView};
use crate::room::{self, Room, RoomView};
use crate::state::AppState;
use crate::text;

verus! {

/// The name of the link protocol.
pub const LINK_PROTOCOL: &'static str = "jboy-link-1";

/// How many players it takes to start.
pub const START_PLAYERS: usize = 2;

/// A player's connection to a room.
#[derive(Debug)]
pub struct Link {
    room_id: String,
    player: String,
}

impl Link {
    /// The id of the room.
    pub closed spec fn room(&self) -> Seq<char> {
        self.room_id@
    }

    /// The name of the player, as the player gave it.
    pub closed spec fn who(&self) -> Seq<char> {
        self.player@
    }

    /// Every connected player has a name that is not blank.
    pub open spec fn wf(&self) -> bool {
        text::trimmed(self.who()).len() > 0
    }

    /// The id of the room.
    pub fn room_id(&self) -> (r: &String)
        ensures
            r@ == self.room(),
    {
        &self.room_id
    }

    /// The name of the player.
    pub fn player(&self) -> (r: &String)
        ensures
            r@ == self.who(),
    {
        &self.player
    }
}

/// What a room tells its players about itself.
#[derive(Debug)]
pub struct LinkSync {
    pub room: String,
    pub host: String,
    pub players: Vec<String>,
    pub ready_players: Vec<String>,
    pub can_start: bool,
}

/// What a [`LinkSync`] stands for.
#[verifier::ext_equal]
pub struct SyncView {
    pub room: Seq<char>,
    pub host: Seq<char>,
    pub players: Seq<Seq<char>>,
    pub ready_players: Seq<Seq<char>>,
    pub can_start: bool,
}

impl View for LinkSync {
    type V = SyncView;

    open spec fn view(&self) -> SyncView {
        SyncView {
            room: self.room@,
            host: self.host@,
            players: text::texts(self.players@),
            ready_players: text::texts(self.ready_players@),
            can_start: self.can_start,
        }
    }
}

/// What a room tells its players about itself while those are ready.
pub open spec fn sync_of(room: RoomView, ready: Seq<Seq<char>>) -> SyncView {
    SyncView {
        room: room.id,
        host: room.owner,
        players: room.players,
        ready_players: ready,
        can_start: room.players.len() >= START_PLAYERS && ready.len() >= START_PLAYERS,
    }
}

/// The members of a `link_sync` message.
pub open spec fn sync_members(sync: SyncView) -> Seq<(Seq<char>, ValueView)> {
    seq![
        ("type"@, ValueView::Text("link_sync"@)),
        ("protocol"@, ValueView::Text(LINK_PROTOCOL@)),
        ("room"@, ValueView::Text(sync.room)),
        ("host"@, ValueView::Text(sync.host)),
        ("players"@, ValueView::Texts(sync.players)),
        ("readyPlayers"@, ValueView::Texts(sync.ready_players)),
        ("canStart"@, ValueView::Flag(sync.can_start)),
    ]
}

/// The text of a `link_sync` message.
pub open spec fn sync_text(sync: SyncView) -> Seq<char> {
    json::json_value_text(sync_members(sync))
}

/// The members of a `pong` message that is sent at that time.
pub open spec fn pong_members(room: Seq<char>, player: Seq<char>, at: Timestamp) -> Seq<
    (Seq<char>, ValueView),
> {
    seq![
        ("type"@, ValueView::Text("pong"@)),
        ("room"@, ValueView::Text(room)),
        ("player"@, ValueView::Text(player)),
        ("ts"@, ValueView::Integer(at.secs * 1000 + at.nanos / 1_000_000)),
    ]
}

/// The text of a `pong` message.
pub open spec fn pong_text(room: Seq<char>, player: Seq<char>, at: Timestamp) -> Seq<char> {
    json::json_value_text(pong_members(room, player, at))
}

/// The members of the envelope in which a payload is sent at that time.
pub open spec fn envelope_members(
    event: Seq<char>,
    room: Seq<char>,
    player: Seq<char>,
    payload: Seq<char>,
    at: Timestamp,
) -> Seq<(Seq<char>, Seq<char>)> {
    seq![
        ("event"@, event),
        ("room_id"@, room),
        ("player"@, player),
        ("payload"@, payload),
        ("ts"@, clock::rfc3339_text(at.secs, at.nanos)),
    ]
}

/// What is sent for an event: the text of its envelope.
pub open spec fn packet(
    event: Seq<char>,
    room: Seq<char>,
    player: Seq<char>,
    payload: Seq<char>,
    at: Timestamp,
) -> Seq<char> {
    json::json_object_text(envelope_members(event, room, player, payload, at))
}

/// What is sent when a player has connected.
pub open spec fn join_packet(room: Seq<char>, player: Seq<char>, at: Timestamp) -> Seq<char> {
    packet("join"@, room, player, "connected"@, at)
}

/// What is sent when a player has disconnected.
pub open spec fn leave_packet(room: Seq<char>, player: Seq<char>, at: Timestamp) -> Seq<char> {
    packet("leave"@, room, player, "disconnected"@, at)
}

/// What is sent when a room is taken down because its last player has disconnected.
pub open spec fn closed_packet(room: Seq<char>, player: Seq<char>, at: Timestamp) -> Seq<char> {
    packet("room_closed"@, room, player, "empty"@, at)
}

/// What is sent when a protocol message goes out.
pub open spec fn protocol_packet(
    room: Seq<char>,
    player: Seq<char>,
    payload: Seq<char>,
    at: Timestamp,
) -> Seq<char> {
    packet("protocol"@, room, player, payload, at)
}

/// What is sent when a player sends anything else.
pub open spec fn message_packet(
    room: Seq<char>,
    player: Seq<char>,
    payload: Seq<char>,
    at: Timestamp,
) -> Seq<char> {
    packet("message"@, room, player, payload, at)
}

/// What a player can send.
#[derive(Clone, Copy, Debug, PartialEq, Eq, Structural)]
pub enum Inbound {
    /// Asks what the room is like.
    Hello,
    /// Says that the player is ready, or is not.
    Ready(bool),
    /// Asks for a `pong`.
    Ping,
    /// Anything else, for the other players.
    Message,
}

/// What a message with those members is. Its kind is the string under `type`; a player who
/// sends `ready` is ready, unless the message says `false` under `ready`.
pub open spec fn inbound(fields: Option<Seq<(Seq<char>, FieldView)>>) -> Inbound {
    match json::member(fields, "type"@) {
        Some(FieldView::Text(kind)) => if kind == "hello"@ {
            Inbound::Hello
        } else if kind == "ready"@ {
            match json::member(fields, "ready"@) {
                Some(FieldView::Flag(flag)) => Inbound::Ready(flag),
                _ => Inbound::Ready(true),
            }
        } else if kind == "ping"@ {
            Inbound::Ping
        } else {
            Inbound::Message
        },
        _ => Inbound::Message,
    }
}

/// What can come in on a connection, as far as it is looked at.
#[derive(Debug)]
pub enum Frame {
    /// A text from the player.
    Text(String),
    /// The end of the connection.
    Close,
    /// Anything else.
    Other,
}

/// What a [`Frame`] stands for.
pub enum FrameView {
    Text(Seq<char>),
    Close,
    Other,
}

impl View for Frame {
    type V = FrameView;

    open spec fn view(&self) -> FrameView {
        match self {
            Frame::Text(text) => FrameView::Text(text@),
            Frame::Close => FrameView::Close,
            Frame::Other => FrameView::Other,
        }
    }
}

impl StateView {
    /// The opening of a connection: a room that is not there is made, with the player as its
    /// owner.
    pub open spec fn open_link(
        self,
        id: Seq<char>,
        name: Seq<char>,
        created_at: Timestamp,
        tx: Sender<String>,
    ) -> (StateView, Result<(), Refusal>) {
        if text::trimmed(name).len() == 0 {
            (self, Err(api::blank_player()))
        } else if self.rooms.contains_key(id) {
            (self, Ok(()))
        } else {
            let room = room::new_room(
                id,
                "Room "@ + id,
                text::trimmed(name),
                room::LINK_ROOM_PLAYERS as nat,
                created_at,
            );
            (self.channel_opened(id, tx).ready_opened(id).with_room(id, room), Ok(()))
        }
    }

    /// What a room that is there tells its players about itself.
    pub open spec fn sync(self, id: Seq<char>) -> SyncView {
        sync_of(self.rooms[id], self.ready_in(id))
    }

    /// The packets that tell the players of a room about it: one, if the room is there.
    pub open spec fn sync_packets(self, id: Seq<char>, player: Seq<char>, at: Timestamp) -> Seq<
        Seq<char>,
    > {
        if self.rooms.contains_key(id) {
            seq![protocol_packet(id, player, sync_text(self.sync(id)), at)]
        } else {
            Seq::empty()
        }
    }

    /// The state once a player has connected: the room has a channel and a list of ready
    /// players, and a room that is there has given the player a seat if one was left.
    pub open spec fn connected(
        self,
        id: Seq<char>,
        player: Seq<char>,
        tx: Sender<String>,
    ) -> StateView {
        let opened = self.channel_opened(id, tx).ready_opened(id);
        if self.rooms.contains_key(id) {
            opened.with_room(id, self.rooms[id].seated(player))
        } else {
            opened
        }
    }

    /// The state once a player has sent a message.
    pub open spec fn received(self, id: Seq<char>, player: Seq<char>, what: Inbound) -> StateView {
        match what {
            Inbound::Ready(flag) => self.ready_set(id, player, flag),
            _ => self,
        }
    }

    /// The packets that a message from a player leads to, at those times.
    pub open spec fn replies(
        self,
        id: Seq<char>,
        player: Seq<char>,
        text: Seq<char>,
        what: Inbound,
        pong_at: Timestamp,
        sent_at: Timestamp,
    ) -> Seq<Seq<char>> {
        match what {
            Inbound::Hello => self.sync_packets(id, player, sent_at),
            Inbound::Ready(flag) => self.ready_set(id, player, flag).sync_packets(
                id,
                player,
                sent_at,
            ),
            Inbound::Ping => seq![
                protocol_packet(id, player, pong_text(id, player, pong_at), sent_at),
            ],
            Inbound::Message => seq![message_packet(id, player, text, sent_at)],
        }
    }

    /// The state once a frame has come in from a player.
    pub open spec fn framed(self, id: Seq<char>, player: Seq<char>, frame: FrameView) -> StateView {
        match frame {
            FrameView::Text(text) => self.received(id, player, inbound(json::json_members(text))),
            _ => self,
        }
    }

    /// The packets that a frame from a player leads to, at those times.
    pub open spec fn frame_packets(
        self,
        id: Seq<char>,
        player: Seq<char>,
        frame: FrameView,
        pong_at: Timestamp,
        sent_at: Timestamp,
    ) -> Seq<Seq<char>> {
        match frame {
            FrameView::Text(text) => self.replies(
                id,
                player,
                text,
                inbound(json::json_members(text)),
                pong_at,
                sent_at,
            ),
            _ => Seq::empty(),
        }
    }

    /// The state once those frames have come in from a player, up to the first `Close`.
    pub open spec fn conversed(
        self,
        id: Seq<char>,
        player: Seq<char>,
        frames: Seq<FrameView>,
    ) -> StateView
        decreases frames.len(),
    {
        if frames.len() == 0 || frames.first() is Close {
            self
        } else {
            self.framed(id, player, frames.first()).conversed(id, player, frames.drop_first())
        }
    }

    /// The packets that those frames from a player lead to, up to the first `Close`, at the times
    /// that stand in the same places.
    pub open spec fn conversation(
        self,
        id: Seq<char>,
        player: Seq<char>,
        frames: Seq<FrameView>,
        times: Seq<(Timestamp, Timestamp)>,
    ) -> Seq<Seq<char>>
        decreases frames.len(),
    {
        if frames.len() == 0 || frames.first() is Close {
            Seq::empty()
        } else {
            self.frame_packets(id, player, frames.first(), times[0].0, times[0].1) + self.framed(
                id,
                player,
                frames.first(),
            ).conversation(id, player, frames.drop_first(), times.drop_first())
        }
    }

    /// The state after a whole connection of a player, on which those frames came in.
    pub open spec fn attended(
        self,
        id: Seq<char>,
        player: Seq<char>,
        tx: Sender<String>,
        frames: Seq<FrameView>,
    ) -> StateView {
        self.connected(id, player, tx).conversed(id, player, frames).disconnected(id, player)
    }

    /// The state once a player has disconnected: no longer ready, and out of the room.
    pub open spec fn disconnected(self, id: Seq<char>, player: Seq<char>) -> StateView {
        let seen = self.unready(id, player);
        if self.rooms.contains_key(id) {
            seen.left(id, player)
        } else {
            seen
        }
    }

    /// The packets that follow a disconnection, at those times: that the player is gone, and
    /// then that the room is gone too, or what it is like.
    pub open spec fn farewells(
        self,
        id: Seq<char>,
        player: Seq<char>,
        left_at: Timestamp,
        closing_at: Timestamp,
    ) -> Seq<Seq<char>> {
        let after = self.disconnected(id, player);
        seq![leave_packet(id, player, left_at)] + if self.rooms.contains_key(id)
            && !after.rooms.contains_key(id) {
            seq![closed_packet(id, player, closing_at)]
        } else {
            after.sync_packets(id, player, closing_at)
        }
    }
}

/// What the answer to the opening of a connection says.
pub open spec fn link_answer(r: Result<Link, (StatusCode, ApiError)>) -> Result<(), Refusal> {
    match r {
        Ok(_) => Ok(()),
        Err(e) => Err(api::refusal(e)),
    }
}

/// A connection keeps [`StateView::inv`].
pub proof fn lemma_connected(s: StateView, id: Seq<char>, player: Seq<char>, tx: Sender<String>)
    requires
        s.inv(),
        player.len() > 0,
        channel::channel_capacity(tx) == channel::CHANNEL_CAPACITY,
        s.apart(tx),
    ensures
        s.channel_opened(id, tx).inv(),
        s.channel_opened(id, tx).ready_opened(id).inv(),
        s.connected(id, player, tx).inv(),
{
    model::lemma_channel_put(s, id, tx);
    let opened = s.channel_opened(id, tx);
    model::lemma_ready_set(opened, id, player, true);
    if s.rooms.contains_key(id) {
        model::lemma_seated_in(opened.ready_opened(id), id, player);
    }
}

/// A member of an object whose values are strings.
fn string_member(name: &str, value: &str) -> (r: (String, String))
    ensures
        (r.0@, r.1@) == (name@, value@),
{
    (name.to_string(), value.to_string())
}

/// The text of the envelope in which a payload is sent at that time. The fallback would stand in
/// for it if the envelope could not be written.
pub fn envelope_text(
    event: &str,
    room: &str,
    player: &str,
    payload: &str,
    at: Timestamp,
    fallback: String,
) -> (r: String)
    requires
        at.valid(),
    ensures
        r@ == packet(event@, room@, player@, payload@, at),
{
    let mut members: Vec<(String, String)> = Vec::new();
    members.push(string_member("event", event));
    members.push(string_member("room_id", room));
    members.push(string_member("player", player));
    members.push(string_member("payload", payload));
    members.push(string_member("ts", clock::rfc3339(at).as_str()));
    assert(json::string_list(members@) =~= envelope_members(
        event@,
        room@,
        player@,
        payload@,
        at,
    ));
    json::write_object(&members, fallback)
}

impl LinkSync {
    /// What a room tells its players about itself while those are ready.
    pub fn new(room: &Room, ready_players: Vec<String>) -> (r: LinkSync)
        ensures
            r@ == sync_of(room@, text::texts(ready_players@)),
    {
        let can_start = room.players.len() >= START_PLAYERS && ready_players.len()
            >= START_PLAYERS;
        LinkSync {
            room: room.id.clone(),
            host: room.owner.clone(),
            players: text::clone_texts(&room.players),
            ready_players,
            can_start,
        }
    }

    /// The members of the `link_sync` message.
    pub fn into_members(self) -> (r: Vec<(String, JsonValue)>)
        ensures
            json::value_list(r@) == sync_members(self@),
    {
        let mut members: Vec<(String, JsonValue)> = Vec::new();
        members.push(("type".to_string(), JsonValue::Text("link_sync".to_string())));
        members.push(("protocol".to_string(), JsonValue::Text(LINK_PROTOCOL.to_string())));
        members.push(("room".to_string(), JsonValue::Text(self.room)));
        members.push(("host".to_string(), JsonValue::Text(self.host)));
        members.push(("players".to_string(), JsonValue::Texts(self.players)));
        members.push(("readyPlayers".to_string(), JsonValue::Texts(self.ready_players)));
        members.push(("canStart".to_string(), JsonValue::Flag(self.can_start)));
        assert(json::value_list(members@) =~= sync_members(self@));
        members
    }
}

/// The text of a `pong` message that is sent at that time.
pub fn pong(room: &String, player: &String, at: Timestamp) -> (r: String)
    requires
        at.valid(),
    ensures
        r@ == pong_text(room@, player@, at),
{
    let mut members: Vec<(String, JsonValue)> = Vec::new();
    members.push(("type".to_string(), JsonValue::Text("pong".to_string())));
    members.push(("room".to_string(), JsonValue::Text(room.clone())));
    members.push(("player".to_string(), JsonValue::Text(player.clone())));
    members.push(("ts".to_string(), JsonValue::Integer(clock::timestamp_millis(at))));
    assert(json::value_list(members@) =~= pong_members(room@, player@, at));
    json::value_text(members)
}

/// What a message with those members is.
pub fn classify(fields: &Option<Vec<(String, JsonField)>>) -> (r: Inbound)
    ensures
        r == inbound(json::fields_of(*fields)),
{
    let kind = match json::text_member(fields, &"type".to_string()) {
        Some(kind) => kind,
        None => {
            return Inbound::Message;
        },
    };
    if kind == "hello".to_string() {
        Inbound::Hello
    } else if kind == "ready".to_string() {
        match json::flag_member(fields, &"ready".to_string()) {
            Some(flag) => Inbound::Ready(flag),
            None => Inbound::Ready(true),
        }
    } else if kind == "ping".to_string() {
        Inbound::Ping
    } else {
        Inbound::Message
    }
}

/// What a received text is.
pub fn classify_text(text: &str) -> (r: Inbound)
    ensures
        r == inbound(json::json_members(text@)),
{
    classify(&json::read_members(text))
}

/// A connection that was made: the room's channel, and what is to be sent on it first.
pub struct Connection {
    pub tx: Sender<String>,
    pub packets: Vec<String>,
}

impl AppState {
    /// Opens a connection of a player to a room. A room that is not there is made, created at
    /// that time, with the player as its owner, and with that channel if it has none.
    pub fn ws_room_with(
        &mut self,
        room_id: &String,
        player: &String,
        created_at: Timestamp,
        tx: Sender<String>,
    ) -> (r: Result<Link, (StatusCode, ApiError)>)
        requires
            old(self).wf(),
            created_at.valid(),
            channel::channel_capacity(tx) == channel::CHANNEL_CAPACITY,
            old(self)@.apart(tx),
        ensures
            final(self).wf(),
            (final(self)@, link_answer(r)) == old(self)@.open_link(
                room_id@,
                player@,
                created_at,
                tx,
            ),
            r matches Ok(link) ==> {
                &&& link.wf()
                &&& link.room() == room_id@
                &&& link.who() == player@
            },
    {
        let owner = text::trim_text(player.as_str());
        if owner.as_str().is_empty() {
            return Err(api::error_json(StatusCode::BadRequest, "玩家名不能为空"));
        }
        if self.find_room(room_id).is_none() {
            let ghost before = self@;
            let ghost id = room_id@;
            let mut name = "Room ".to_string();
            name.append(room_id.as_str());
            proof {
                reveal_strlit("Room ");
                room::lemma_new_room(
                    id,
                    name@,
                    owner@,
                    room::LINK_ROOM_PLAYERS as nat,
                    created_at,
                );
                lemma_connected(before, id, owner@, tx);
            }
            let room = Room::new(
                room_id.clone(),
                name,
                owner,
                room::LINK_ROOM_PLAYERS,
                created_at,
            );
            self.open_channel_for(room_id, tx);
            self.open_ready_for(room_id);
            proof {
                model::lemma_room_put(self@, id, room@);
            }
            self.put_room(room_id, room);
        }
        Ok(Link { room_id: room_id.clone(), player: player.clone() })
    }

    /// Opens a connection of a player to a room. A room that is not there is made, with the
    /// player as its owner.
    pub fn ws_room(&mut self, room_id: &String, player: &String) -> (r: Result<
        Link,
        (StatusCode, ApiError),
    >)
        requires
            old(self).wf(),
        ensures
            final(self).wf(),
            exists|created_at: Timestamp, tx: Sender<String>|
                {
                    &&& created_at.valid()
                    &&& channel::channel_capacity(tx) == channel::CHANNEL_CAPACITY
                    &&& old(self)@.apart(tx)
                    &&& (final(self)@, link_answer(r)) == #[trigger] old(self)@.open_link(
                        room_id@,
                        player@,
                        created_at,
                        tx,
                    )
                },
            r matches Ok(link) ==> {
                &&& link.wf()
                &&& link.room() == room_id@
                &&& link.who() == player@
            },
    {
        let created_at = clock::utc_now();
        let tx = self.fresh_channel();
        self.ws_room_with(room_id, player, created_at, tx)
    }

    /// Gives a room that channel, if it has none, and says which one it has.
    fn open_channel_for(&mut self, id: &String, tx: Sender<String>) -> (r: Sender<String>)
        requires
            old(self).sound(),
        ensures
            final(self).sound(),
            final(self)@ == old(self)@.channel_opened(id@, tx),
            r == final(self)@.channels[id@],
    {
        match self.find_channel(id) {
            Some(known) => known,
            None => {
                self.put_channel(id, tx.clone());
                tx
            },
        }
    }

    /// Gives a room a list of ready players, if it has none.
    fn open_ready_for(&mut self, id: &String)
        requires
            old(self).sound(),
        ensures
            final(self).sound(),
            final(self)@ == old(self)@.ready_opened(id@),
    {
        let list = self.find_ready(id);
        self.put_ready(id, list);
    }

    /// What a room tells its players about itself, if it is there.
    pub fn link_sync(&self, room_id: &String) -> (r: Option<LinkSync>)
        requires
            self.wf(),
        ensures
            match r {
                Some(sync) => self@.rooms.contains_key(room_id@) && sync@ == self@.sync(room_id@),
                None => !self@.rooms.contains_key(room_id@),
            },
    {
        match self.find_room(room_id) {
            Some(room) => Some(LinkSync::new(room, self.find_ready(room_id))),
            None => None,
        }
    }

    /// The text of the `link_sync` message of a room, if it is there.
    pub fn build_link_sync_payload(&self, room_id: &String) -> (r: Option<String>)
        requires
            self.wf(),
        ensures
            match r {
                Some(payload) => self@.rooms.contains_key(room_id@) && payload@ == sync_text(
                    self@.sync(room_id@),
                ),
                None => !self@.rooms.contains_key(room_id@),
            },
    {
        match self.link_sync(room_id) {
            Some(sync) => Some(json::value_text(sync.into_members())),
            None => None,
        }
    }

    /// Adds the packet that tells the players of a room about it, if the room is there.
    fn push_sync(&self, packets: &mut Vec<String>, room: &String, player: &String, at: Timestamp)
        requires
            self.wf(),
            at.valid(),
        ensures
            text::texts(final(packets)@) == text::texts(old(packets)@) + self@.sync_packets(
                room@,
                player@,
                at,
            ),
    {
        match self.build_link_sync_payload(room) {
            Some(sync) => {
                let packet = envelope_text(
                    "protocol",
                    room.as_str(),
                    player.as_str(),
                    sync.as_str(),
                    at,
                    sync.clone(),
                );
                packets.push(packet);
                assert(text::texts(packets@) =~= text::texts(old(packets)@) + self@.sync_packets(
                    room@,
                    player@,
                    at,
                ));
            },
            None => {
                assert(text::texts(packets@) =~= text::texts(old(packets)@) + self@.sync_packets(
                    room@,
                    player@,
                    at,
                ));
            },
        }
    }

    /// Connects a player to a room, with that channel if the room has none: gives the player a
    /// seat if the room is there and one is left, and says what the room is to be told, at those
    /// times.
    pub fn connect_with(
        &mut self,
        link: &Link,
        tx: Sender<String>,
        joined_at: Timestamp,
        synced_at: Timestamp,
    ) -> (r: Connection)
        requires
            old(self).wf(),
            link.wf(),
            channel::channel_capacity(tx) == channel::CHANNEL_CAPACITY,
            old(self)@.apart(tx),
            joined_at.valid(),
            synced_at.valid(),
        ensures
            final(self).wf(),
            final(self)@ == old(self)@.connected(link.room(), link.who(), tx),
            r.tx == final(self)@.channels[link.room()],
            text::texts(r.packets@) == seq![join_packet(link.room(), link.who(), joined_at)]
                + final(self)@.sync_packets(link.room(), link.who(), synced_at),
    {
        let id = link.room_id();
        let player = link.player();
        proof {
            text::lemma_trimmed_len(player@);
            lemma_connected(self@, id@, player@, tx);
        }
        let known = self.open_channel_for(id, tx);
        self.open_ready_for(id);
        self.seat_player(id, player);
        assert(self@ =~= old(self)@.connected(id@, player@, tx));
        let mut packets: Vec<String> = Vec::new();
        packets.push(
            envelope_text(
                "join",
                id.as_str(),
                player.as_str(),
                "connected",
                joined_at,
                "{\"event\":\"join\"}".to_string(),
            ),
        );
        assert(text::texts(packets@) =~= seq![join_packet(id@, player@, joined_at)]);
        self.push_sync(&mut packets, id, player, synced_at);
        Connection { tx: known, packets }
    }

    /// Connects a player to a room: gives the player a seat if the room is there and one is
    /// left, and says what the room is to be told.
    pub fn connect(&mut self, link: &Link) -> (r: Connection)
        requires
            old(self).wf(),
            link.wf(),
        ensures
            final(self).wf(),
            exists|tx: Sender<String>|
                {
                    &&& channel::channel_capacity(tx) == channel::CHANNEL_CAPACITY
                    &&& old(self)@.apart(tx)
                    &&& final(self)@ == #[trigger] old(self)@.connected(
                        link.room(),
                        link.who(),
                        tx,
                    )
                },
            r.tx == final(self)@.channels[link.room()],
            exists|joined_at: Timestamp, synced_at: Timestamp|
                {
                    &&& joined_at.valid() && synced_at.valid()
                    &&& text::texts(r.packets@) == seq![
                        #[trigger] join_packet(link.room(), link.who(), joined_at),
                    ] + #[trigger] final(self)@.sync_packets(link.room(), link.who(), synced_at)
                },
    {
        let tx = self.fresh_channel();
        let joined_at = clock::utc_now();
        let synced_at = clock::utc_now();
        self.connect_with(link, tx, joined_at, synced_at)
    }

    /// Takes a message of that kind from a player, and says what the room is to be told, at
    /// those times.
    pub fn receive_with(
        &mut self,
        link: &Link,
        text: &str,
        what: Inbound,
        pong_at: Timestamp,
        sent_at: Timestamp,
    ) -> (r: Vec<String>)
        requires
            old(self).wf(),
            pong_at.valid(),
            sent_at.valid(),
        ensures
            final(self).wf(),
            final(self)@ == old(self)@.received(link.room(), link.who(), what),
            text::texts(r@) == old(self)@.replies(
                link.room(),
                link.who(),
                text@,
                what,
                pong_at,
                sent_at,
            ),
    {
        let id = link.room_id();
        let player = link.player();
        let mut packets: Vec<String> = Vec::new();
        assert(text::texts(packets@) =~= Seq::empty());
        match what {
            Inbound::Hello => {
                self.push_sync(&mut packets, id, player, sent_at);
            },
            Inbound::Ready(flag) => {
                proof {
                    model::lemma_ready_set(self@, id@, player@, flag);
                }
                self.set_ready(id, player, flag);
                self.push_sync(&mut packets, id, player, sent_at);
            },
            Inbound::Ping => {
                let payload = pong(id, player, pong_at);
                packets.push(
                    envelope_text(
                        "protocol",
                        id.as_str(),
                        player.as_str(),
                        payload.as_str(),
                        sent_at,
                        payload.clone(),
                    ),
                );
            },
            Inbound::Message => {
                packets.push(
                    envelope_text(
                        "message",
                        id.as_str(),
                        player.as_str(),
                        text,
                        sent_at,
                        text.to_string(),
                    ),
                );
            },
        }
        assert(text::texts(packets@) =~= old(self)@.replies(
            id@,
            player@,
            text@,
            what,
            pong_at,
            sent_at,
        ));
        packets
    }

    /// Takes a message from a player, and says what the room is to be told.
    pub fn receive(&mut self, link: &Link, text: &str) -> (r: Vec<String>)
        requires
            old(self).wf(),
        ensures
            final(self).wf(),
            final(self)@ == old(self)@.received(
                link.room(),
                link.who(),
                inbound(json::json_members(text@)),
            ),
            exists|pong_at: Timestamp, sent_at: Timestamp|
                {
                    &&& pong_at.valid() && sent_at.valid()
                    &&& text::texts(r@) == #[trigger] old(self)@.replies(
                        link.room(),
                        link.who(),
                        text@,
                        inbound(json::json_members(text@)),
                        pong_at,
                        sent_at,
                    )
                },
    {
        let what = classify_text(text);
        let pong_at = clock::utc_now();
        let sent_at = clock::utc_now();
        self.receive_with(link, text, what, pong_at, sent_at)
    }

    /// Takes a frame from a player, and says what the room is to be told: nothing, unless it is a
    /// text. `None` where the connection is at its end.
    pub fn on_frame(&mut self, link: &Link, frame: &Frame) -> (r: Option<Vec<String>>)
        requires
            old(self).wf(),
        ensures
            final(self).wf(),
            final(self)@ == old(self)@.framed(link.room(), link.who(), frame@),
            r is None <==> frame@ is Close,
            r is Some ==> exists|pong_at: Timestamp, sent_at: Timestamp|
                {
                    &&& pong_at.valid() && sent_at.valid()
                    &&& text::texts(r->0@) == #[trigger] old(self)@.frame_packets(
                        link.room(),
                        link.who(),
                        frame@,
                        pong_at,
                        sent_at,
                    )
                },
    {
        match frame {
            Frame::Text(text) => {
                let packets = self.receive(link, text.as_str());
                proof {
                    let what = inbound(json::json_members(text@));
                    let (pong_at, sent_at) = choose|pong_at: Timestamp, sent_at: Timestamp|
                        {
                            &&& pong_at.valid() && sent_at.valid()
                            &&& text::texts(packets@) == #[trigger] old(self)@.replies(
                                link.room(),
                                link.who(),
                                text@,
                                what,
                                pong_at,
                                sent_at,
                            )
                        };
                    assert(text::texts(packets@) == old(self)@.frame_packets(
                        link.room(),
                        link.who(),
                        frame@,
                        pong_at,
                        sent_at,
                    ));
                }
                Some(packets)
            },
            Frame::Close => None,
            Frame::Other => {
                let packets: Vec<String> = Vec::new();
                proof {
                    let at = Timestamp { secs: 0, nanos: 0 };
                    assert(at.valid());
                    assert(text::texts(packets@) =~= old(self)@.frame_packets(
                        link.room(),
                        link.who(),
                        frame@,
                        at,
                        at,
                    ));
                }
                Some(packets)
            },
        }
    }

    /// Disconnects a player from a room, takes down the room if it is empty then, and says what
    /// the room is to be told, at those times.
    pub fn disconnect_at(&mut self, link: &Link, left_at: Timestamp, closing_at: Timestamp) -> (r:
        Vec<String>)
        requires
            old(self).wf(),
            left_at.valid(),
            closing_at.valid(),
        ensures
            final(self).wf(),
            final(self)@ == old(self)@.disconnected(link.room(), link.who()),
            text::texts(r@) == old(self)@.farewells(
                link.room(),
                link.who(),
                left_at,
                closing_at,
            ),
    {
        let id = link.room_id();
        let player = link.player();
        let mut packets: Vec<String> = Vec::new();
        packets.push(
            envelope_text(
                "leave",
                id.as_str(),
                player.as_str(),
                "disconnected",
                left_at,
                "{\"event\":\"leave\"}".to_string(),
            ),
        );
        assert(text::texts(packets@) =~= seq![leave_packet(id@, player@, left_at)]);
        proof {
            model::lemma_ready_set(self@, id@, player@, false);
        }
        self.clear_ready(id, player);
        proof {
            if self@.rooms.contains_key(id@) {
                model::lemma_left(self@, id@, player@);
            }
        }
        let emptied = match self.leave(id, player) {
            Some(room) => room.players.is_empty(),
            None => false,
        };
        if emptied {
            packets.push(
                envelope_text(
                    "room_closed",
                    id.as_str(),
                    player.as_str(),
                    "empty",
                    closing_at,
                    "{\"event\":\"room_closed\"}".to_string(),
                ),
            );
        } else {
            self.push_sync(&mut packets, id, player, closing_at);
        }
        assert(text::texts(packets@) =~= old(self)@.farewells(
            id@,
            player@,
            left_at,
            closing_at,
        ));
        packets
    }

    /// Disconnects a player from a room, takes down the room if it is empty then, and says what
    /// the room is to be told.
    pub fn disconnect(&mut self, link: &Link) -> (r: Vec<String>)
        requires
            old(self).wf(),
        ensures
            final(self).wf(),
            final(self)@ == old(self)@.disconnected(link.room(), link.who()),
            exists|left_at: Timestamp, closing_at: Timestamp|
                {
                    &&& left_at.valid() && closing_at.valid()
                    &&& text::texts(r@) == #[trigger] old(self)@.farewells(
                        link.room(),
                        link.who(),
                        left_at,
                        closing_at,
                    )
                },
    {
        let left_at = clock::utc_now();
        let closing_at = clock::utc_now();
        self.disconnect_at(link, left_at, closing_at)
    }
}

} // verus!
