//! What holds of the server as a whole, across requests.
use tokio::sync::broadcast::Sender;
use vstd::prelude::*;
use crate::admin::{self, LoginView, StatsView};
use crate::api::{self, Refusal, StatusCode};
use crate::clock::{self, Timestamp};
use crate::link::{self, FrameView, Inbound};
use crate::model::{self, SessionView, StateView};
use crate::room::{self, RoomView};
use crate::text;

verus! {

/// A server starts out sound.
pub proof fn initial_is_sound(password: Seq<char>)
    ensures
        model::initial(password).inv(),
{
}

/// A token that a login gives out lets its bearer through until 24 hours after the login, and
/// from then on no more.
pub proof fn login_lasts_a_day(
    s: StateView,
    username: Seq<char>,
    password: Seq<char>,
    token: Seq<char>,
    now: Timestamp,
    later: Timestamp,
)
    requires
        s.knows(username, password),
        now.valid(),
        admin::session_fits(now),
        later.valid(),
    ensures
        s.login(username, password, token, now).1 is Ok,
        s.login(username, password, token, now).1->Ok_0.token == token,
        ({
            let passed = s.login(username, password, token, now).0.authenticate(
                Some(token),
                later,
            ).1;
            if later.instant() < now.instant() + 24 * 3600 * 1_000_000_000 {
                passed == Ok::<SessionView, Refusal>(admin::new_session(now))
            } else {
                passed == Err::<SessionView, Refusal>(api::dead_token())
            }
        }),
{
    let session = admin::new_session(now);
    admin::lemma_new_session(now);
    clock::later_is_greater(session.expires_at, later);
}

/// Wrong credentials change nothing and give out no token.
pub proof fn wrong_credentials_change_nothing(
    s: StateView,
    username: Seq<char>,
    password: Seq<char>,
    token: Seq<char>,
    now: Timestamp,
)
    requires
        !s.knows(username, password),
    ensures
        s.login(username, password, token, now) == (
            s,
            Err::<LoginView, Refusal>(api::wrong_credentials()),
        ),
{
}

/// After the logout of an open session the token lets nobody through, at whatever time, and
/// cannot be logged out again.
pub proof fn logout_ends_the_session(
    s: StateView,
    token: Seq<char>,
    now: Timestamp,
    later: Timestamp,
)
    requires
        s.sessions.contains_key(token),
        s.sessions[token].live(now),
    ensures
        s.logout(Some(token), now).1 == Ok::<bool, Refusal>(true),
        s.logout(Some(token), now).0.authenticate(Some(token), later) == (
            s.logout(Some(token), now).0,
            Err::<SessionView, Refusal>(api::dead_token()),
        ),
        s.logout(Some(token), now).0.logout(Some(token), later) == (
            s.logout(Some(token), now).0,
            Err::<bool, Refusal>(api::unknown_token()),
        ),
{
}

/// A session that is over cannot be logged out: it is forgotten, and the answer is the one that
/// its token gets wherever an administrator is asked for.
pub proof fn a_session_that_is_over_cannot_log_out(s: StateView, token: Seq<char>, now: Timestamp)
    requires
        s.sessions.contains_key(token),
        !s.sessions[token].live(now),
    ensures
        s.logout(Some(token), now) == (
            s.without_session(token),
            Err::<bool, Refusal>(api::dead_token()),
        ),
        s.authenticate(Some(token), now) == (
            s.without_session(token),
            Err::<SessionView, Refusal>(api::dead_token()),
        ),
{
}

/// A login that is logged out again within 24 hours leaves the server as it was, where the token
/// is new.
pub proof fn logout_undoes_login(
    s: StateView,
    username: Seq<char>,
    password: Seq<char>,
    token: Seq<char>,
    now: Timestamp,
    later: Timestamp,
)
    requires
        s.knows(username, password),
        !s.sessions.contains_key(token),
        now.valid(),
        admin::session_fits(now),
        later.valid(),
        later.instant() < now.instant() + 24 * 3600 * 1_000_000_000,
    ensures
        s.login(username, password, token, now).0.logout(Some(token), later) == (
            s,
            Ok::<bool, Refusal>(true),
        ),
{
    let session = admin::new_session(now);
    admin::lemma_new_session(now);
    clock::later_is_greater(session.expires_at, later);
    assert(s.login(username, password, token, now).0.logout(Some(token), later).0 =~= s);
}

/// A session that was found to be over does not come back, whatever time it is then.
pub proof fn a_dead_token_stays_dead(
    s: StateView,
    token: Seq<char>,
    now: Timestamp,
    later: Timestamp,
)
    requires
        s.authenticate(Some(token), now).1 is Err,
    ensures
        s.authenticate(Some(token), now).0.authenticate(Some(token), later) == (
            s.authenticate(Some(token), now).0,
            Err::<SessionView, Refusal>(api::dead_token()),
        ),
{
}

/// Letting a request through, or not, touches nothing but the session of its token, and that
/// one only where it is over.
pub proof fn authentication_touches_one_session(
    s: StateView,
    token: Option<Seq<char>>,
    now: Timestamp,
)
    ensures
        ({
            let after = s.authenticate(token, now).0;
            &&& after.rooms == s.rooms && after.channels == s.channels && after.ready == s.ready
            &&& after.password == s.password
            &&& after == s || (token is Some && after == s.without_session(token->0)
                && !s.sessions[token->0].live(now))
        }),
{
}

/// Without the token of an open session no room is made or taken down, no counts are given and
/// nobody is logged out: such a request is refused, but for the logout with the answer that the
/// token gets, and rooms, channels and ready players stay as they are.
pub proof fn only_administrators_get_through(
    s: StateView,
    token: Option<Seq<char>>,
    now: Timestamp,
    name: Seq<char>,
    owner: Seq<char>,
    max_players: Option<usize>,
    id: Seq<char>,
    at: Timestamp,
    counted_at: Timestamp,
    tx: Sender<String>,
)
    requires
        s.authenticate(token, now).1 is Err,
    ensures
        ({
            let (seen, passed) = s.authenticate(token, now);
            let created = s.create(token, name, owner, max_players, now, id, at, tx);
            let deleted = s.delete(token, id, now);
            let counted = s.stats(token, now, counted_at, at);
            let ended = s.logout(token, now);
            &&& passed->Err_0 == if token is None {
                api::missing_token()
            } else {
                api::dead_token()
            }
            &&& created == (seen, Err::<(StatusCode, RoomView), Refusal>(passed->Err_0))
            &&& deleted == (seen, Err::<StatusCode, Refusal>(passed->Err_0))
            &&& counted == (seen, Err::<StatsView, Refusal>(passed->Err_0))
            &&& ended.0 == seen && ended.1 is Err
            &&& seen.rooms == s.rooms && seen.channels == s.channels && seen.ready == s.ready
        }),
{
}

/// A room that was made is there, with its owner as the one player in it and its one
/// administrator, for 2 to 8 players, and with nobody ready.
pub proof fn a_made_room_is_there(
    s: StateView,
    token: Option<Seq<char>>,
    now: Timestamp,
    name: Seq<char>,
    owner: Seq<char>,
    max_players: Option<usize>,
    id: Seq<char>,
    at: Timestamp,
    tx: Sender<String>,
)
    requires
        s.authenticate(token, now).1 is Ok,
        text::trimmed(name).len() > 0,
        text::trimmed(owner).len() > 0,
    ensures
        ({
            let (after, answer) = s.create(token, name, owner, max_players, now, id, at, tx);
            let room = after.rooms[id];
            &&& answer == Ok::<(StatusCode, RoomView), Refusal>((StatusCode::Created, room))
            &&& after.rooms.contains_key(id)
            &&& room.id == id
            &&& room.name == text::trimmed(name)
            &&& room.owner == text::trimmed(owner)
            &&& room.players == seq![room.owner]
            &&& room.admins == seq![room.owner]
            &&& 2 <= room.max_players <= 8
            &&& max_players is Some && 2 <= max_players->0 <= 8 ==> room.max_players
                == max_players->0
            &&& max_players is None ==> room.max_players == 2
            &&& after.channels.contains_key(id) && after.channels[id] == tx
            &&& after.ready_in(id) == Seq::<Seq<char>>::empty()
        }),
{
}

/// Taking down a room that was just made under a new id leaves the server as it was.
pub proof fn delete_undoes_create(
    s: StateView,
    token: Option<Seq<char>>,
    now: Timestamp,
    name: Seq<char>,
    owner: Seq<char>,
    max_players: Option<usize>,
    id: Seq<char>,
    at: Timestamp,
    tx: Sender<String>,
)
    requires
        s.authenticate(token, now).1 is Ok,
        text::trimmed(name).len() > 0,
        text::trimmed(owner).len() > 0,
        !s.rooms.contains_key(id),
        !s.channels.contains_key(id),
        !s.ready.contains_key(id),
    ensures
        s.create(token, name, owner, max_players, now, id, at, tx).0.delete(token, id, now) == (
            s,
            Ok::<StatusCode, Refusal>(StatusCode::NoContent),
        ),
{
    let after = s.create(token, name, owner, max_players, now, id, at, tx).0;
    assert(after.without_room(id) =~= s);
}

/// A room that was taken down is not there, nor its channel, nor its ready players; taking it
/// down again finds no room.
pub proof fn a_deleted_room_is_gone(
    s: StateView,
    token: Option<Seq<char>>,
    id: Seq<char>,
    now: Timestamp,
)
    requires
        s.authenticate(token, now).1 is Ok,
    ensures
        ({
            let after = s.delete(token, id, now).0;
            &&& !after.rooms.contains_key(id)
            &&& !after.channels.contains_key(id)
            &&& !after.ready.contains_key(id)
            &&& s.delete(token, id, now).1 is Ok <==> s.rooms.contains_key(id)
            &&& after.delete(token, id, now).1 == Err::<StatusCode, Refusal>(api::no_such_room())
        }),
{
}

/// A player who joined sits in the room; its owner and its administrators stay who they are.
pub proof fn join_seats_the_player(s: StateView, id: Seq<char>, name: Seq<char>)
    requires
        s.inv(),
        s.join(id, name).1 is Ok,
    ensures
        ({
            let before = s.rooms[id];
            let after = s.join(id, name).0.rooms[id];
            &&& after.players.contains(text::trimmed(name))
            &&& after.owner == before.owner
            &&& after.admins == before.admins
            &&& before.players.is_prefix_of(after.players)
            &&& after.players.len() <= before.max_players
        }),
{
    let player = text::trimmed(name);
    let before = s.rooms[id];
    room::lemma_seated(before, player);
    text::lemma_push_contains(before.players, player, player);
}

/// Joining a room twice is joining it once, also where the name is written with other whitespace
/// around it.
pub proof fn join_twice_is_join_once(
    s: StateView,
    id: Seq<char>,
    name: Seq<char>,
    again: Seq<char>,
)
    requires
        s.inv(),
        s.join(id, name).1 is Ok,
        text::trimmed(again) == text::trimmed(name),
    ensures
        s.join(id, name).0.join(id, again) == s.join(id, name),
{
    let player = text::trimmed(name);
    let room = s.rooms[id];
    room::lemma_seated(room, player);
    text::lemma_push_contains(room.players, player, player);
    let after = s.join(id, name).0;
    assert(room.seated(player).seated(player) =~= room.seated(player));
    assert(after.with_room(id, room.seated(player)) =~= after);
}

/// A full room takes in nobody who is not already there.
pub proof fn a_full_room_refuses(s: StateView, id: Seq<char>, name: Seq<char>)
    requires
        s.rooms.contains_key(id),
        s.rooms[id].full(),
        text::trimmed(name).len() > 0,
        !s.rooms[id].players.contains(text::trimmed(name)),
    ensures
        s.join(id, name) == (s, Err::<RoomView, Refusal>(api::room_full())),
{
}

/// A player who joins a room and leaves it again leaves it as it was.
pub proof fn leave_undoes_join(s: StateView, id: Seq<char>, name: Seq<char>)
    requires
        s.inv(),
        s.rooms.contains_key(id),
        text::trimmed(name).len() > 0,
        !s.rooms[id].players.contains(text::trimmed(name)),
        !s.rooms[id].full(),
    ensures
        s.join(id, name).0.leave(id, name) == (
            s.unready(id, text::trimmed(name)),
            Ok::<RoomView, Refusal>(s.rooms[id]),
        ),
{
    let player = text::trimmed(name);
    let room = s.rooms[id];
    let joined = s.join(id, name).0;
    room::lemma_seated(room, player);
    room::lemma_departed_stranger(room, player);
    text::lemma_without_push(room.players, player, player);
    text::lemma_without_absent(room.players, player);
    assert(room.seated(player).players == room.players.push(player));
    room::lemma_departed_guest(room.seated(player), player);
    assert(room.seated(player).departed(player) =~= room);
    assert(joined.unready(id, player).left(id, player) =~= s.unready(id, player));
}

/// Someone who does not sit in a room can leave it: the room stays as it is.
pub proof fn leave_of_a_stranger(s: StateView, id: Seq<char>, name: Seq<char>)
    requires
        s.inv(),
        s.rooms.contains_key(id),
        text::trimmed(name).len() > 0,
        !s.rooms[id].players.contains(text::trimmed(name)),
    ensures
        s.leave(id, name) == (
            s.unready(id, text::trimmed(name)),
            Ok::<RoomView, Refusal>(s.rooms[id]),
        ),
{
    let player = text::trimmed(name);
    let room = s.rooms[id];
    room::lemma_departed_stranger(room, player);
    assert(s.unready(id, player).left(id, player) =~= s.unready(id, player)) by {
        assert(room.players.len() > 0);
        assert(s.rooms.insert(id, room) =~= s.rooms);
    }
}

/// A player who left does not sit in the room and is not ready in it; the others keep their
/// order.
pub proof fn who_left_is_out(s: StateView, id: Seq<char>, name: Seq<char>)
    requires
        s.inv(),
        s.rooms.contains_key(id),
        text::trimmed(name).len() > 0,
    ensures
        ({
            let player = text::trimmed(name);
            let (after, answer) = s.leave(id, name);
            &&& answer is Ok
            &&& answer->Ok_0.players == text::without(s.rooms[id].players, player)
            &&& !answer->Ok_0.players.contains(player)
            &&& after.rooms.contains_key(id) ==> after.rooms[id] == answer->Ok_0
            &&& after.rooms.contains_key(id) <==> answer->Ok_0.players.len() > 0
            &&& !after.ready_in(id).contains(player)
        }),
{
    let player = text::trimmed(name);
    room::lemma_departed(s.rooms[id], player);
    text::lemma_without(s.ready_in(id), player);
}

/// When the owner leaves a room in which others sit, the one of them who came first owns it and
/// is its one administrator.
pub proof fn owner_leave_hands_over(s: StateView, id: Seq<char>, name: Seq<char>)
    requires
        s.inv(),
        s.rooms.contains_key(id),
        text::trimmed(name) == s.rooms[id].owner,
        s.rooms[id].players.len() > 1,
    ensures
        ({
            let rest = text::without(s.rooms[id].players, s.rooms[id].owner);
            let (after, answer) = s.leave(id, name);
            &&& rest.len() > 0
            &&& after.rooms.contains_key(id)
            &&& answer == Ok::<RoomView, Refusal>(after.rooms[id])
            &&& after.rooms[id].owner == rest[0]
            &&& after.rooms[id].admins == seq![rest[0]]
            &&& after.rooms[id].players == rest
        }),
{
    let room = s.rooms[id];
    let owner = room.owner;
    let rest = text::without(room.players, owner);
    assert(owner.len() > 0);
    assert(rest.len() > 0) by {
        text::lemma_without(room.players, owner);
        let other = if room.players[0] == owner {
            room.players[1]
        } else {
            room.players[0]
        };
        assert(room.players.contains(other));
        assert(rest.contains(other));
    }
    room::lemma_departed(room, owner);
}

/// When the last player leaves, the room, its channel and its ready players are gone.
pub proof fn last_leave_takes_the_room_down(s: StateView, id: Seq<char>, name: Seq<char>)
    requires
        s.inv(),
        s.rooms.contains_key(id),
        s.rooms[id].players == seq![text::trimmed(name)],
    ensures
        s.leave(id, name).1 is Ok,
        s.leave(id, name).0 == s.without_room(id),
{
    let player = text::trimmed(name);
    let room = s.rooms[id];
    assert(room.players.contains(player)) by {
        assert(room.players[0] == player);
    }
    assert(text::without(room.players, player).len() == 0) by {
        let none = Seq::<Seq<char>>::empty();
        assert(room.players =~= none.push(player));
        text::lemma_without_push(none, player, player);
        text::lemma_without(none, player);
    }
    assert(s.leave(id, name).0 =~= s.without_room(id));
}

/// A player can be removed from a room by its administrators and by whoever bears the token of
/// an open session, and by nobody else: then the room stays as it is, and so do its ready
/// players.
pub proof fn kick_needs_permission(
    s: StateView,
    token: Option<Seq<char>>,
    id: Seq<char>,
    requester: Option<Seq<char>>,
    name: Seq<char>,
    now: Timestamp,
)
    requires
        s.inv(),
        s.rooms.contains_key(id),
        text::trimmed(name).len() > 0,
    ensures
        ({
            let (after, answer) = s.kick(token, id, requester, name, now);
            let may = {
                ||| requester is Some && text::trimmed(requester->0) == s.rooms[id].owner
                ||| token is Some && s.sessions.contains_key(token->0) && s.sessions[token->0].live(
                    now,
                )
            };
            &&& !may ==> answer == Err::<RoomView, Refusal>(api::not_permitted())
            &&& !may ==> after.rooms == s.rooms && after.ready == s.ready && after.channels
                == s.channels
            &&& may && s.rooms[id].players.contains(text::trimmed(name)) ==> answer is Ok
            &&& may && !s.rooms[id].players.contains(text::trimmed(name)) ==> answer == Err::<
                RoomView,
                Refusal,
            >(api::absent_target()) && after.rooms == s.rooms
        }),
{
    let room = s.rooms[id];
    assert(room.owner.len() > 0);
    assert forall|p: Seq<char>| #[trigger] room.admins.contains(p) <==> p == room.owner by {
        assert(room.admins[0] == room.owner);
    }
}

/// A removal that is carried out does to the room what the player's leaving does.
pub proof fn kick_is_a_forced_leave(
    s: StateView,
    token: Option<Seq<char>>,
    id: Seq<char>,
    requester: Option<Seq<char>>,
    name: Seq<char>,
    now: Timestamp,
)
    requires
        s.kick(token, id, requester, name, now).1 is Ok,
    ensures
        ({
            let (after, answer) = s.kick(token, id, requester, name, now);
            let (gone, left) = s.leave(id, name);
            &&& answer == left
            &&& after.rooms == gone.rooms
            &&& after.channels == gone.channels
            &&& after.ready == gone.ready
        }),
{
}

/// What players do in one room leaves every other room as it is, its channel and its ready
/// players too.
pub proof fn other_rooms_stay(
    s: StateView,
    id: Seq<char>,
    other: Seq<char>,
    name: Seq<char>,
    token: Option<Seq<char>>,
    requester: Option<Seq<char>>,
    now: Timestamp,
    tx: Sender<String>,
    what: Inbound,
)
    requires
        id != other,
    ensures
        same_room(s, s.join(id, name).0, other),
        same_room(s, s.leave(id, name).0, other),
        same_room(s, s.kick(token, id, requester, name, now).0, other),
        same_room(s, s.delete(token, id, now).0, other),
        same_room(s, s.open_link(id, name, now, tx).0, other),
        same_room(s, s.connected(id, name, tx), other),
        same_room(s, s.received(id, name, what), other),
        same_room(s, s.disconnected(id, name), other),
{
}

/// Two states hold the same of a room.
pub open spec fn same_room(a: StateView, b: StateView, id: Seq<char>) -> bool {
    &&& a.rooms.contains_key(id) == b.rooms.contains_key(id)
    &&& a.channels.contains_key(id) == b.channels.contains_key(id)
    &&& a.ready.contains_key(id) == b.ready.contains_key(id)
    &&& a.rooms.contains_key(id) ==> a.rooms[id] == b.rooms[id]
    &&& a.channels.contains_key(id) ==> a.channels[id] == b.channels[id]
    &&& a.ready.contains_key(id) ==> a.ready[id] == b.ready[id]
}

/// What players do leaves the administrator sessions and the password as they are, but for a
/// session that a removal finds to be over.
pub proof fn players_leave_sessions_alone(
    s: StateView,
    id: Seq<char>,
    name: Seq<char>,
    token: Option<Seq<char>>,
    requester: Option<Seq<char>>,
    now: Timestamp,
    tx: Sender<String>,
    what: Inbound,
)
    ensures
        s.join(id, name).0.sessions == s.sessions,
        s.leave(id, name).0.sessions == s.sessions,
        s.open_link(id, name, now, tx).0.sessions == s.sessions,
        s.connected(id, name, tx).sessions == s.sessions,
        s.received(id, name, what).sessions == s.sessions,
        s.disconnected(id, name).sessions == s.sessions,
        ({
            let after = s.kick(token, id, requester, name, now).0.sessions;
            after == s.sessions || (token is Some && after == s.sessions.remove(token->0)
                && !s.sessions[token->0].live(now))
        }),
        s.kick(token, id, requester, name, now).0.password == s.password,
{
}

/// Whoever says to be ready is, and whoever says not to be is not; saying so twice is saying so
/// once; the others stay as they are.
pub proof fn ready_is_what_was_said(
    s: StateView,
    id: Seq<char>,
    player: Seq<char>,
    flag: bool,
    other: Seq<char>,
)
    requires
        other != player,
    ensures
        ({
            let after = s.received(id, player, Inbound::Ready(flag));
            &&& after.ready_in(id).contains(player) == flag
            &&& after.ready_in(id).contains(other) == s.ready_in(id).contains(other)
            &&& after.received(id, player, Inbound::Ready(flag)) == after
            &&& after.rooms == s.rooms
            &&& after.channels == s.channels
        }),
{
    let list = s.ready_in(id);
    let after = s.received(id, player, Inbound::Ready(flag));
    text::lemma_without(list, player);
    text::lemma_push_contains(list, player, player);
    text::lemma_push_contains(list, player, other);
    let again = after.received(id, player, Inbound::Ready(flag));
    if !flag {
        text::lemma_without_absent(text::without(list, player), player);
    }
    assert(again =~= after);
}

/// Messages other than `ready` change nothing.
pub proof fn only_ready_changes_anything(
    s: StateView,
    id: Seq<char>,
    player: Seq<char>,
    what: Inbound,
)
    requires
        !(what is Ready),
    ensures
        s.received(id, player, what) == s,
{
}

/// In a room that is there, `hello` and `ready` are answered by one packet, which tells of the
/// room as it then is; a `ping` and any other message are answered by one packet in any case.
pub proof fn every_message_is_answered(
    s: StateView,
    id: Seq<char>,
    player: Seq<char>,
    text: Seq<char>,
    what: Inbound,
    pong_at: Timestamp,
    sent_at: Timestamp,
)
    ensures
        ({
            let replies = s.replies(id, player, text, what, pong_at, sent_at);
            let after = s.received(id, player, what);
            &&& (what is Ping || what is Message || s.rooms.contains_key(id)) ==> replies.len() == 1
            &&& (what is Hello || what is Ready) && s.rooms.contains_key(id) ==> replies[0]
                == link::protocol_packet(
                id,
                player,
                link::sync_text(link::sync_of(s.rooms[id], after.ready_in(id))),
                sent_at,
            )
            &&& what is Ping ==> replies[0] == link::protocol_packet(
                id,
                player,
                link::pong_text(id, player, pong_at),
                sent_at,
            )
            &&& what is Message ==> replies[0] == link::message_packet(id, player, text, sent_at)
        }),
{
}

/// A room in which two players who sit in it are ready can start; one that can start has at
/// least two players, and at least two are ready.
pub proof fn two_ready_players_can_start(
    s: StateView,
    id: Seq<char>,
    a: Seq<char>,
    b: Seq<char>,
)
    ensures
        ({
            let sync = s.sync(id);
            &&& {
                &&& a != b
                &&& sync.players.contains(a) && sync.players.contains(b)
                &&& sync.ready_players.contains(a) && sync.ready_players.contains(b)
            } ==> sync.can_start
            &&& sync.can_start ==> sync.players.len() >= 2 && sync.ready_players.len() >= 2
        }),
{
    let sync = s.sync(id);
    if a != b && sync.players.contains(a) && sync.players.contains(b)
        && sync.ready_players.contains(a) && sync.ready_players.contains(b) {
        let i = choose|i: int| 0 <= i < sync.players.len() && sync.players[i] == a;
        let j = choose|j: int| 0 <= j < sync.players.len() && sync.players[j] == b;
        let k = choose|k: int| 0 <= k < sync.ready_players.len() && sync.ready_players[k] == a;
        let l = choose|l: int| 0 <= l < sync.ready_players.len() && sync.ready_players[l] == b;
        assert(i != j && k != l);
    }
}

/// A player who connects to a room that is not there finds it made, for 4 players, with a
/// channel, and sits in it as its owner.
pub proof fn connecting_opens_a_room(
    s: StateView,
    id: Seq<char>,
    player: Seq<char>,
    at: Timestamp,
    tx: Sender<String>,
    other: Sender<String>,
)
    requires
        !s.rooms.contains_key(id),
        player.len() > 0,
        text::trimmed(player) == player,
    ensures
        ({
            let (opened, answer) = s.open_link(id, player, at, tx);
            let after = opened.connected(id, player, other);
            &&& answer is Ok
            &&& after == opened
            &&& after.rooms.contains_key(id)
            &&& after.rooms[id] == room::new_room(id, "Room "@ + id, player, 4, at)
            &&& after.channels.contains_key(id)
            &&& !s.channels.contains_key(id) ==> after.channels[id] == tx
            &&& after.ready.contains_key(id)
        }),
{
    let opened = s.open_link(id, player, at, tx).0;
    let after = opened.connected(id, player, other);
    let room = opened.rooms[id];
    assert(room.players.contains(player)) by {
        assert(room.players[0] == player);
    }
    assert(room.seated(player) =~= room);
    assert(after =~= opened);
}

/// A player who connects sits in the room, unless every seat is taken by others; the room keeps
/// its channel, which is the one that the player gets.
pub proof fn connecting_takes_a_free_seat(
    s: StateView,
    id: Seq<char>,
    player: Seq<char>,
    tx: Sender<String>,
)
    requires
        s.inv(),
        s.rooms.contains_key(id),
        player.len() > 0,
    ensures
        ({
            let after = s.connected(id, player, tx);
            &&& after.rooms[id].players.contains(player) <==> s.rooms[id].players.contains(player)
                || !s.rooms[id].full()
            &&& after.rooms[id].owner == s.rooms[id].owner
            &&& after.channels == s.channels
            &&& after.ready == s.ready
        }),
{
    let room = s.rooms[id];
    room::lemma_seated(room, player);
    text::lemma_push_contains(room.players, player, player);
    assert(s.connected(id, player, tx).ready =~= s.ready);
}

/// A player who connects to a room without sitting in it and disconnects again leaves the room
/// as it was.
pub proof fn disconnecting_undoes_connecting(
    s: StateView,
    id: Seq<char>,
    player: Seq<char>,
    tx: Sender<String>,
)
    requires
        s.inv(),
        s.rooms.contains_key(id),
        player.len() > 0,
        !s.rooms[id].players.contains(player),
    ensures
        s.connected(id, player, tx).disconnected(id, player) == s.unready(id, player),
{
    let room = s.rooms[id];
    let seated = room.seated(player);
    room::lemma_seated(room, player);
    room::lemma_departed_guest(seated, player);
    text::lemma_without_push(room.players, player, player);
    text::lemma_without_absent(room.players, player);
    assert(seated.departed(player) =~= room);
    assert(room.players.len() > 0);
    let connected = s.connected(id, player, tx);
    assert(connected.unready(id, player).left(id, player) =~= s.unready(id, player));
}

/// A disconnection is a leave; its first packet says that the player is gone, and there is a
/// second one if there was a room: that it is gone too, or what it is like.
pub proof fn disconnecting_is_leaving(
    s: StateView,
    id: Seq<char>,
    player: Seq<char>,
    left_at: Timestamp,
    closing_at: Timestamp,
)
    requires
        s.rooms.contains_key(id),
        player.len() > 0,
        text::trimmed(player) == player,
    ensures
        ({
            let after = s.disconnected(id, player);
            let packets = s.farewells(id, player, left_at, closing_at);
            &&& after == s.leave(id, player).0
            &&& packets.len() == 2
            &&& packets[0] == link::leave_packet(id, player, left_at)
            &&& packets[1] == if after.rooms.contains_key(id) {
                link::protocol_packet(id, player, link::sync_text(after.sync(id)), closing_at)
            } else {
                link::closed_packet(id, player, closing_at)
            }
        }),
{
}

/// Each room has a channel, and no other room has the same one.
pub proof fn rooms_have_channels_of_their_own(s: StateView, a: Seq<char>, b: Seq<char>)
    requires
        s.inv(),
        s.rooms.contains_key(a),
        s.rooms.contains_key(b),
        a != b,
    ensures
        s.channels.contains_key(a),
        s.channels.contains_key(b),
        s.channels[a] != s.channels[b],
{
}

/// What frames come in on a connection, however many, changes at most who is ready in its room.
pub proof fn frames_change_readiness_alone(
    s: StateView,
    id: Seq<char>,
    player: Seq<char>,
    frames: Seq<FrameView>,
)
    ensures
        ({
            let after = s.conversed(id, player, frames);
            &&& after.rooms == s.rooms
            &&& after.channels == s.channels
            &&& after.sessions == s.sessions
            &&& after.password == s.password
            &&& after.ready.remove(id) == s.ready.remove(id)
        }),
    decreases frames.len(),
{
    if frames.len() > 0 && !(frames.first() is Close) {
        let step = s.framed(id, player, frames.first());
        frames_change_readiness_alone(step, id, player, frames.drop_first());
        assert(step.ready.remove(id) =~= s.ready.remove(id));
    }
}

/// A connection, from its beginning to its end and whatever frames come in on it, leaves every
/// other room as it is, its channel and its ready players too, and all sessions and the
/// password.
pub proof fn a_connection_touches_its_room_alone(
    s: StateView,
    id: Seq<char>,
    other: Seq<char>,
    player: Seq<char>,
    tx: Sender<String>,
    frames: Seq<FrameView>,
)
    requires
        id != other,
    ensures
        ({
            let during = s.connected(id, player, tx).conversed(id, player, frames);
            let after = s.attended(id, player, tx, frames);
            &&& same_room(s, during, other)
            &&& same_room(s, after, other)
            &&& during.sessions == s.sessions && during.password == s.password
            &&& after.sessions == s.sessions && after.password == s.password
        }),
{
    let begun = s.connected(id, player, tx);
    let during = begun.conversed(id, player, frames);
    frames_change_readiness_alone(begun, id, player, frames);
    assert(begun.ready.remove(id).contains_key(other) == begun.ready.contains_key(other));
    assert(during.ready.remove(id).contains_key(other) == during.ready.contains_key(other));
    assert(begun.ready.contains_key(other) ==> begun.ready.remove(id)[other] == begun.ready[other]);
    assert(during.ready.contains_key(other) ==> during.ready.remove(id)[other]
        == during.ready[other]);
}

/// Frames that come in after a `Close` are not handled.
pub proof fn nothing_is_handled_after_a_close(
    s: StateView,
    id: Seq<char>,
    player: Seq<char>,
    frames: Seq<FrameView>,
    more: Seq<FrameView>,
    times: Seq<(Timestamp, Timestamp)>,
)
    ensures
        ({
            let all = frames.push(FrameView::Close) + more;
            &&& s.conversed(id, player, all) == s.conversed(id, player, frames)
            &&& s.conversation(id, player, all, times) == s.conversation(id, player, frames, times)
        }),
    decreases frames.len(),
{
    let all = frames.push(FrameView::Close) + more;
    if frames.len() == 0 {
        assert(all.first() is Close);
    } else {
        assert(all.first() == frames.first());
        if !(frames.first() is Close) {
            let rest = frames.drop_first();
            assert(all.drop_first() =~= rest.push(FrameView::Close) + more);
            nothing_is_handled_after_a_close(
                s.framed(id, player, frames.first()),
                id,
                player,
                rest,
                more,
                times.drop_first(),
            );
        }
    }
}

/// Frames other than texts and `Close` change nothing and lead to no packet, wherever they come
/// in.
pub proof fn other_frames_do_nothing(
    s: StateView,
    id: Seq<char>,
    player: Seq<char>,
    front: Seq<FrameView>,
    back: Seq<FrameView>,
    before: Seq<(Timestamp, Timestamp)>,
    at: (Timestamp, Timestamp),
    behind: Seq<(Timestamp, Timestamp)>,
)
    requires
        before.len() == front.len(),
    ensures
        ({
            let with = front.push(FrameView::Other) + back;
            let without = front + back;
            &&& s.conversed(id, player, with) == s.conversed(id, player, without)
            &&& s.conversation(id, player, with, before.push(at) + behind) == s.conversation(
                id,
                player,
                without,
                before + behind,
            )
        }),
    decreases front.len(),
{
    let with = front.push(FrameView::Other) + back;
    let without = front + back;
    let times_with = before.push(at) + behind;
    let times_without = before + behind;
    if front.len() == 0 {
        assert(with.first() == FrameView::Other);
        assert(with.drop_first() =~= back);
        assert(without =~= back);
        assert(times_with.drop_first() =~= behind);
        assert(times_without =~= behind);
        assert(s.conversation(id, player, with, times_with) =~= s.conversation(
            id,
            player,
            back,
            behind,
        ));
    } else {
        assert(with.first() == front.first());
        assert(without.first() == front.first());
        if !(front.first() is Close) {
            assert(with.drop_first() =~= front.drop_first().push(FrameView::Other) + back);
            assert(without.drop_first() =~= front.drop_first() + back);
            assert(times_with.drop_first() =~= before.drop_first().push(at) + behind);
            assert(times_without.drop_first() =~= before.drop_first() + behind);
            assert(times_with[0] == times_without[0]);
            other_frames_do_nothing(
                s.framed(id, player, front.first()),
                id,
                player,
                front.drop_first(),
                back,
                before.drop_first(),
                at,
                behind,
            );
        }
    }
}

/// The seats taken in all rooms of a sound state fit in a machine word, where there are no more
/// than an eighth of a word's rooms.
pub proof fn seats_fit(s: StateView)
    requires
        s.inv(),
        s.rooms.dom().finite(),
        s.rooms.len() * 8 <= usize::MAX,
    ensures
        model::seats_taken(s.rooms) <= usize::MAX,
{
    assert forall|id: Seq<char>| #[trigger] s.rooms.contains_key(id) implies s.rooms[id].players.len()
        <= 8 by {
        assert(s.rooms[id].inv());
    }
    model::lemma_seats_taken_bound(s.rooms, 8);
}

} // verus!
