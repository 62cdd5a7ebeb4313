//! What each step of a connection does, and what the room is told.
use tokio::sync::broadcast::Sender;
use vstd::prelude::*;
use crate::api::{Refusal, StatusCode};
use crate::clock::{self, Timestamp};
use crate::json::{self, FieldView, ValueView};
use crate::link::{self, FrameView, Inbound, SyncView};
use crate::model::StateView;
use crate::room::RoomView;
use crate::text;

verus! {

/// A `link_sync` names the room by its id, its owner as the host, exactly its players in their
/// order and exactly those who are ready. The room can start if it has at least two players and
/// at least two are ready.
pub proof fn what_a_link_sync_says(room: RoomView, ready: Seq<Seq<char>>)
    ensures
        ({
            let sync = link::sync_of(room, ready);
            &&& sync.room == room.id
            &&& sync.host == room.owner
            &&& sync.players == room.players
            &&& sync.ready_players == ready
            &&& sync.can_start <==> room.players.len() >= 2 && ready.len() >= 2
        }),
{
}

/// The `link_sync` of a room that is there tells of that room and of who is ready in it.
pub proof fn which_room_a_link_sync_tells_of(s: StateView, id: Seq<char>)
    requires
        s.rooms.contains_key(id),
    ensures
        ({
            let sync = s.sync(id);
            &&& sync.room == s.rooms[id].id
            &&& sync.host == s.rooms[id].owner
            &&& sync.players == s.rooms[id].players
            &&& s.ready.contains_key(id) ==> sync.ready_players == s.ready[id]
            &&& !s.ready.contains_key(id) ==> sync.ready_players.len() == 0
            &&& sync.can_start <==> sync.players.len() >= 2 && sync.ready_players.len() >= 2
        }),
{
}

/// The members of a `link_sync` message.
pub proof fn how_a_link_sync_is_written(sync: SyncView)
    ensures
        link::sync_members(sync) == seq![
            ("type"@, ValueView::Text("link_sync"@)),
            ("protocol"@, ValueView::Text("jboy-link-1"@)),
            ("room"@, ValueView::Text(sync.room)),
            ("host"@, ValueView::Text(sync.host)),
            ("players"@, ValueView::Texts(sync.players)),
            ("readyPlayers"@, ValueView::Texts(sync.ready_players)),
            ("canStart"@, ValueView::Flag(sync.can_start)),
        ],
        link::sync_text(sync) == json::json_value_text(link::sync_members(sync)),
{
}

/// The members of a `pong` message: its time is in whole milliseconds.
pub proof fn how_a_pong_is_written(room: Seq<char>, player: Seq<char>, at: Timestamp)
    ensures
        link::pong_members(room, player, at) == seq![
            ("type"@, ValueView::Text("pong"@)),
            ("room"@, ValueView::Text(room)),
            ("player"@, ValueView::Text(player)),
            ("ts"@, ValueView::Integer(at.instant() / 1_000_000)),
        ],
        link::pong_text(room, player, at) == json::json_value_text(
            link::pong_members(room, player, at),
        ),
{
    assert(at.instant() / 1_000_000 == at.secs * 1000 + at.nanos / 1_000_000);
}

/// The members of an envelope, and with it of every packet: what happened, where, of whom, with
/// what payload and when.
pub proof fn how_an_envelope_is_written(
    event: Seq<char>,
    room: Seq<char>,
    player: Seq<char>,
    payload: Seq<char>,
    at: Timestamp,
)
    ensures
        link::envelope_members(event, room, player, payload, at) == seq![
            ("event"@, event),
            ("room_id"@, room),
            ("player"@, player),
            ("payload"@, payload),
            ("ts"@, clock::rfc3339_text(at.secs, at.nanos)),
        ],
        link::packet(event, room, player, payload, at) == json::json_object_text(
            link::envelope_members(event, room, player, payload, at),
        ),
{
}

/// Each kind of packet has an event of its own, and carries its payload unchanged.
pub proof fn which_packets_there_are(
    room: Seq<char>,
    player: Seq<char>,
    payload: Seq<char>,
    at: Timestamp,
)
    ensures
        link::join_packet(room, player, at) == link::packet(
            "join"@,
            room,
            player,
            "connected"@,
            at,
        ),
        link::leave_packet(room, player, at) == link::packet(
            "leave"@,
            room,
            player,
            "disconnected"@,
            at,
        ),
        link::closed_packet(room, player, at) == link::packet(
            "room_closed"@,
            room,
            player,
            "empty"@,
            at,
        ),
        link::protocol_packet(room, player, payload, at) == link::packet(
            "protocol"@,
            room,
            player,
            payload,
            at,
        ),
        link::message_packet(room, player, payload, at) == link::packet(
            "message"@,
            room,
            player,
            payload,
            at,
        ),
{
}

/// The three kinds of protocol message have different names.
pub proof fn kinds_have_different_names()
    ensures
        "hello"@ != "ready"@,
        "hello"@ != "ping"@,
        "ready"@ != "ping"@,
{
    reveal_strlit("hello");
    reveal_strlit("ready");
    reveal_strlit("ping");
    assert("hello"@[0] == 'h');
    assert("ready"@[0] == 'r');
    assert("ping"@.len() == 4);
}

/// A message is a `hello`, a `ready` or a `ping` exactly where its member `type` is that string.
/// A `ready` means what its member `ready` says, and that the player is ready where that is
/// neither `true` nor `false`.
pub proof fn what_a_message_is(fields: Option<Seq<(Seq<char>, FieldView)>>)
    ensures
        ({
            let kind = json::member(fields, "type"@);
            let said = json::member(fields, "ready"@);
            let what = link::inbound(fields);
            &&& what is Hello <==> kind == Some(FieldView::Text("hello"@))
            &&& what is Ready <==> kind == Some(FieldView::Text("ready"@))
            &&& what is Ping <==> kind == Some(FieldView::Text("ping"@))
            &&& what is Ready ==> (what == Inbound::Ready(false) <==> said == Some(
                FieldView::Flag(false),
            ))
        }),
{
    kinds_have_different_names();
}

/// A text that is no `hello`, `ready` or `ping` changes nothing and is passed on: it leads to
/// one packet, a message that carries the text itself.
pub proof fn other_texts_are_passed_on(
    s: StateView,
    id: Seq<char>,
    player: Seq<char>,
    text: Seq<char>,
    pong_at: Timestamp,
    sent_at: Timestamp,
)
    requires
        ({
            let kind = json::member(json::json_members(text), "type"@);
            &&& kind != Some(FieldView::Text("hello"@))
            &&& kind != Some(FieldView::Text("ready"@))
            &&& kind != Some(FieldView::Text("ping"@))
        }),
    ensures
        s.framed(id, player, FrameView::Text(text)) == s,
        s.frame_packets(id, player, FrameView::Text(text), pong_at, sent_at) == seq![
            link::packet("message"@, id, player, text, sent_at),
        ],
        s.replies(id, player, text, Inbound::Message, pong_at, sent_at) == seq![
            link::packet("message"@, id, player, text, sent_at),
        ],
{
}

/// A `ping` changes nothing and leads to one packet, a `pong` for whoever sent it.
pub proof fn a_ping_is_answered_with_a_pong(
    s: StateView,
    id: Seq<char>,
    player: Seq<char>,
    text: Seq<char>,
    pong_at: Timestamp,
    sent_at: Timestamp,
)
    ensures
        s.received(id, player, Inbound::Ping) == s,
        s.replies(id, player, text, Inbound::Ping, pong_at, sent_at) == seq![
            link::packet("protocol"@, id, player, link::pong_text(id, player, pong_at), sent_at),
        ],
        json::member(json::json_members(text), "type"@) == Some(FieldView::Text("ping"@)) ==> {
            &&& s.framed(id, player, FrameView::Text(text)) == s
            &&& s.frame_packets(id, player, FrameView::Text(text), pong_at, sent_at) == seq![
                link::packet(
                    "protocol"@,
                    id,
                    player,
                    link::pong_text(id, player, pong_at),
                    sent_at,
                ),
            ]
        },
{
    kinds_have_different_names();
}

/// A `hello` changes nothing. It leads to one packet with the `link_sync` of the room, or to
/// none where there is no room.
pub proof fn a_hello_is_answered_with_a_link_sync(
    s: StateView,
    id: Seq<char>,
    player: Seq<char>,
    text: Seq<char>,
    pong_at: Timestamp,
    sent_at: Timestamp,
)
    ensures
        ({
            let told = s.replies(id, player, text, Inbound::Hello, pong_at, sent_at);
            &&& s.received(id, player, Inbound::Hello) == s
            &&& s.rooms.contains_key(id) ==> told == seq![
                link::packet("protocol"@, id, player, link::sync_text(s.sync(id)), sent_at),
            ]
            &&& !s.rooms.contains_key(id) ==> told.len() == 0
            &&& json::member(json::json_members(text), "type"@) == Some(FieldView::Text("hello"@))
                ==> {
                &&& s.framed(id, player, FrameView::Text(text)) == s
                &&& s.frame_packets(id, player, FrameView::Text(text), pong_at, sent_at) == told
            }
        }),
{
    kinds_have_different_names();
}

/// A `ready` puts the player at the end of those who are ready in the room, unless they are
/// among them, or takes them out; the others keep their order, and all else stays. It leads to
/// one packet with the `link_sync` of the room as it then is, or to none where there is no room.
pub proof fn a_ready_updates_the_ready_players(
    s: StateView,
    id: Seq<char>,
    player: Seq<char>,
    flag: bool,
    text: Seq<char>,
    pong_at: Timestamp,
    sent_at: Timestamp,
)
    ensures
        ({
            let before = if s.ready.contains_key(id) {
                s.ready[id]
            } else {
                Seq::empty()
            };
            let after = s.received(id, player, Inbound::Ready(flag));
            let told = s.replies(id, player, text, Inbound::Ready(flag), pong_at, sent_at);
            &&& after.ready.contains_key(id)
            &&& after.ready[id] == if !flag {
                text::without(before, player)
            } else if before.contains(player) {
                before
            } else {
                before.push(player)
            }
            &&& after.ready.remove(id) == s.ready.remove(id)
            &&& after.rooms == s.rooms && after.channels == s.channels
            &&& after.sessions == s.sessions && after.password == s.password
            &&& s.rooms.contains_key(id) ==> told == seq![
                link::packet("protocol"@, id, player, link::sync_text(after.sync(id)), sent_at),
            ]
            &&& !s.rooms.contains_key(id) ==> told.len() == 0
            &&& {
                &&& json::member(json::json_members(text), "type"@) == Some(
                    FieldView::Text("ready"@),
                )
                &&& flag == (json::member(json::json_members(text), "ready"@) != Some(
                    FieldView::Flag(false),
                ))
            } ==> {
                &&& s.framed(id, player, FrameView::Text(text)) == after
                &&& s.frame_packets(id, player, FrameView::Text(text), pong_at, sent_at) == told
            }
        }),
{
    kinds_have_different_names();
    let after = s.received(id, player, Inbound::Ready(flag));
    assert(after.ready.remove(id) =~= s.ready.remove(id));
}

/// Frames that are no text change nothing and lead to no packet.
pub proof fn frames_without_text_do_nothing(
    s: StateView,
    id: Seq<char>,
    player: Seq<char>,
    pong_at: Timestamp,
    sent_at: Timestamp,
)
    ensures
        s.framed(id, player, FrameView::Close) == s,
        s.framed(id, player, FrameView::Other) == s,
        s.frame_packets(id, player, FrameView::Close, pong_at, sent_at).len() == 0,
        s.frame_packets(id, player, FrameView::Other, pong_at, sent_at).len() == 0,
{
}

/// Frames are handled one by one, from the first on: none at all do nothing, and of several the
/// first is handled and then the rest, unless it is a `Close`.
pub proof fn frames_are_handled_in_order(
    s: StateView,
    id: Seq<char>,
    player: Seq<char>,
    first: FrameView,
    rest: Seq<FrameView>,
    at: (Timestamp, Timestamp),
    times: Seq<(Timestamp, Timestamp)>,
)
    requires
        !(first is Close),
    ensures
        s.conversed(id, player, Seq::empty()) == s,
        s.conversation(id, player, Seq::empty(), times).len() == 0,
        s.conversed(id, player, seq![first] + rest) == s.framed(id, player, first).conversed(
            id,
            player,
            rest,
        ),
        s.conversation(id, player, seq![first] + rest, seq![at] + times) == s.frame_packets(
            id,
            player,
            first,
            at.0,
            at.1,
        ) + s.framed(id, player, first).conversation(id, player, rest, times),
{
    let all = seq![first] + rest;
    assert(all.first() == first);
    assert(all.drop_first() =~= rest);
    assert((seq![at] + times).drop_first() =~= times);
    assert((seq![at] + times)[0] == at);
}

/// Opening a connection needs a name that is not blank. A room that is there stays as it is, with
/// all else; one that is not is made, for 4 players, named after its id and with the trimmed
/// name of the player as its owner, its one player and its one administrator. It gets the
/// channel and an empty list of ready players, where nothing was left of those under its id.
pub proof fn what_opening_a_connection_does(
    s: StateView,
    id: Seq<char>,
    name: Seq<char>,
    created_at: Timestamp,
    tx: Sender<String>,
)
    ensures
        ({
            let (after, answer) = s.open_link(id, name, created_at, tx);
            let owner = text::trimmed(name);
            &&& owner.len() == 0 ==> after == s && answer == Err::<(), Refusal>(
                (StatusCode::BadRequest, "玩家名不能为空"@),
            )
            &&& owner.len() > 0 ==> answer == Ok::<(), Refusal>(())
            &&& owner.len() > 0 && s.rooms.contains_key(id) ==> after == s
            &&& owner.len() > 0 && !s.rooms.contains_key(id) ==> {
                let made = after.rooms[id];
                &&& after.rooms.contains_key(id)
                &&& made.id == id
                &&& made.name == "Room "@ + id
                &&& made.owner == owner
                &&& made.players.len() == 1 && made.players[0] == owner
                &&& made.admins.len() == 1 && made.admins[0] == owner
                &&& made.max_players == 4
                &&& made.created_at == created_at
                &&& after.channels.contains_key(id)
                &&& after.channels[id] == if s.channels.contains_key(id) {
                    s.channels[id]
                } else {
                    tx
                }
                &&& after.ready.contains_key(id)
                &&& s.ready.contains_key(id) ==> after.ready[id] == s.ready[id]
                &&& !s.ready.contains_key(id) ==> after.ready[id].len() == 0
            }
            &&& after.rooms.remove(id) == s.rooms.remove(id)
            &&& after.channels.remove(id) == s.channels.remove(id)
            &&& after.ready.remove(id) == s.ready.remove(id)
            &&& after.sessions == s.sessions && after.password == s.password
        }),
{
    let after = s.open_link(id, name, created_at, tx).0;
    assert(after.rooms.remove(id) =~= s.rooms.remove(id));
    assert(after.channels.remove(id) =~= s.channels.remove(id));
    assert(after.ready.remove(id) =~= s.ready.remove(id));
}

/// Nobody loses a seat by a connection: the players of the room stay, in their order, and the one
/// who connects comes after them, unless they sit there already or as many sit there as the room
/// is for. The room keeps its id, name, owner, administrators, size and time.
pub proof fn connecting_keeps_everyone_seated(
    s: StateView,
    id: Seq<char>,
    player: Seq<char>,
    tx: Sender<String>,
)
    requires
        s.rooms.contains_key(id),
        s.rooms[id].owner.len() > 0,
        s.rooms[id].admins.len() > 0,
    ensures
        ({
            let before = s.rooms[id];
            let after = s.connected(id, player, tx).rooms[id];
            &&& s.connected(id, player, tx).rooms.contains_key(id)
            &&& before.players.contains(player) || before.players.len() >= before.max_players
                ==> after.players == before.players
            &&& !before.players.contains(player) && before.players.len() < before.max_players
                ==> after.players == before.players.push(player)
            &&& before.players.is_prefix_of(after.players)
            &&& after.id == before.id && after.name == before.name && after.owner == before.owner
            &&& after.admins == before.admins && after.max_players == before.max_players
            &&& after.created_at == before.created_at
        }),
{
}

/// A connection makes no room. The room's id gets the channel and an empty list of ready
/// players, where it has none; all that it has stays, and so does all else.
pub proof fn what_a_connection_opens(
    s: StateView,
    id: Seq<char>,
    player: Seq<char>,
    tx: Sender<String>,
)
    ensures
        ({
            let after = s.connected(id, player, tx);
            &&& !s.rooms.contains_key(id) ==> after.rooms == s.rooms
            &&& after.channels.contains_key(id)
            &&& after.channels[id] == if s.channels.contains_key(id) {
                s.channels[id]
            } else {
                tx
            }
            &&& after.ready.contains_key(id)
            &&& s.ready.contains_key(id) ==> after.ready[id] == s.ready[id]
            &&& !s.ready.contains_key(id) ==> after.ready[id].len() == 0
            &&& after.rooms.remove(id) == s.rooms.remove(id)
            &&& after.channels.remove(id) == s.channels.remove(id)
            &&& after.ready.remove(id) == s.ready.remove(id)
            &&& after.sessions == s.sessions && after.password == s.password
        }),
{
    let after = s.connected(id, player, tx);
    assert(after.rooms.remove(id) =~= s.rooms.remove(id));
    assert(after.channels.remove(id) =~= s.channels.remove(id));
    assert(after.ready.remove(id) =~= s.ready.remove(id));
}

/// The packets that tell of a room are one, with its `link_sync`, or none where there is no room.
pub proof fn what_tells_of_a_room(
    s: StateView,
    id: Seq<char>,
    player: Seq<char>,
    at: Timestamp,
)
    ensures
        s.rooms.contains_key(id) ==> s.sync_packets(id, player, at) == seq![
            link::packet("protocol"@, id, player, link::sync_text(s.sync(id)), at),
        ],
        !s.rooms.contains_key(id) ==> s.sync_packets(id, player, at).len() == 0,
{
}

/// A player who disconnects is no longer ready and departs from the room, if it is there. It
/// stays if anyone is left in it; else it, its channel and its ready players are gone. All else
/// stays.
pub proof fn what_a_disconnection_does(s: StateView, id: Seq<char>, player: Seq<char>)
    ensures
        ({
            let after = s.disconnected(id, player);
            let room = s.rooms[id].departed(player);
            let stays = s.rooms.contains_key(id) && room.players.len() > 0;
            let closes = s.rooms.contains_key(id) && room.players.len() == 0;
            &&& after.rooms.contains_key(id) <==> stays
            &&& stays ==> after.rooms[id] == room
            &&& closes ==> after.channels == s.channels.remove(id) && !after.ready.contains_key(id)
            &&& !closes ==> {
                &&& after.channels == s.channels
                &&& after.ready.contains_key(id) == s.ready.contains_key(id)
                &&& s.ready.contains_key(id) ==> after.ready[id] == text::without(
                    s.ready[id],
                    player,
                )
            }
            &&& after.rooms.remove(id) == s.rooms.remove(id)
            &&& after.ready.remove(id) == s.ready.remove(id)
            &&& after.sessions == s.sessions && after.password == s.password
        }),
{
    let after = s.disconnected(id, player);
    assert(after.rooms.remove(id) =~= s.rooms.remove(id));
    assert(after.ready.remove(id) =~= s.ready.remove(id));
}

/// A disconnection is told first of all. A room that it closed is then told of as closed, one
/// that stays by its `link_sync` as it then is, and one that was not there not at all.
pub proof fn what_is_told_of_a_disconnection(
    s: StateView,
    id: Seq<char>,
    player: Seq<char>,
    left_at: Timestamp,
    closing_at: Timestamp,
)
    ensures
        ({
            let after = s.disconnected(id, player);
            let told = s.farewells(id, player, left_at, closing_at);
            &&& told.len() > 0
            &&& told[0] == link::packet("leave"@, id, player, "disconnected"@, left_at)
            &&& !s.rooms.contains_key(id) ==> told.len() == 1
            &&& s.rooms.contains_key(id) ==> {
                &&& told.len() == 2
                &&& told[1] == if after.rooms.contains_key(id) {
                    link::packet(
                        "protocol"@,
                        id,
                        player,
                        link::sync_text(after.sync(id)),
                        closing_at,
                    )
                } else {
                    link::packet("room_closed"@, id, player, "empty"@, closing_at)
                }
            }
        }),
{
}

/// A whole connection is its beginning, the frames that come in on it, and its end.
pub proof fn what_a_whole_connection_is(
    s: StateView,
    id: Seq<char>,
    player: Seq<char>,
    tx: Sender<String>,
    frames: Seq<FrameView>,
)
    ensures
        s.attended(id, player, tx, frames) == s.connected(id, player, tx).conversed(
            id,
            player,
            frames,
        ).disconnected(id, player),
{
}

} // verus!
