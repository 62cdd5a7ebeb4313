//! What each request for a room does, and when it is refused.
use tokio::sync::broadcast::Sender;
use vstd::prelude::*;
use crate::api::{Refusal, StatusCode};
use crate::clock::Timestamp;
use crate::lobby;
use crate::model::StateView;
use crate::room::{self, RoomView};
use crate::text;

verus! {

/// A room is for as many players as were asked for, or the nearest of 2 and 8, and for 2 where
/// nothing was asked for.
pub proof fn how_many_a_room_is_for(n: usize)
    ensures
        lobby::room_size(None) == 2,
        2 <= lobby::room_size(Some(n)) <= 8,
        n <= 2 ==> lobby::room_size(Some(n)) == 2,
        n >= 8 ==> lobby::room_size(Some(n)) == 8,
        2 <= n <= 8 ==> lobby::room_size(Some(n)) == n,
{
}

/// A room that an administrator makes has the id, the channel and the time that it was given and
/// the trimmed name and owner that were asked for. The owner is its one player and its one
/// administrator. Nobody is ready in it. Other rooms and all sessions stay as they were once the
/// administrator was let through.
pub proof fn what_a_made_room_is(
    s: StateView,
    token: Option<Seq<char>>,
    name: Seq<char>,
    owner: Seq<char>,
    max_players: Option<usize>,
    now: Timestamp,
    id: Seq<char>,
    created_at: Timestamp,
    tx: Sender<String>,
)
    requires
        s.authenticate(token, now).1 is Ok,
        text::trimmed(name).len() > 0,
        text::trimmed(owner).len() > 0,
    ensures
        ({
            let (after, answer) = s.create(
                token,
                name,
                owner,
                max_players,
                now,
                id,
                created_at,
                tx,
            );
            let seen = s.authenticate(token, now).0;
            let made = after.rooms[id];
            &&& answer == Ok::<(StatusCode, RoomView), Refusal>((StatusCode::Created, made))
            &&& after.rooms.contains_key(id)
            &&& made.id == id
            &&& made.name == text::trimmed(name)
            &&& made.owner == text::trimmed(owner)
            &&& made.players.len() == 1 && made.players[0] == text::trimmed(owner)
            &&& made.admins.len() == 1 && made.admins[0] == text::trimmed(owner)
            &&& made.max_players == match max_players {
                Some(n) => if n < 2 {
                    2
                } else if n > 8 {
                    8
                } else {
                    n as nat
                },
                None => 2,
            }
            &&& made.created_at == created_at
            &&& after.channels.contains_key(id) && after.channels[id] == tx
            &&& after.ready.contains_key(id) && after.ready[id].len() == 0
            &&& after.rooms.remove(id) == s.rooms.remove(id)
            &&& after.channels.remove(id) == s.channels.remove(id)
            &&& after.ready.remove(id) == s.ready.remove(id)
            &&& after.sessions == seen.sessions && after.password == s.password
        }),
{
    let after = s.create(token, name, owner, max_players, now, id, created_at, tx).0;
    assert(after.rooms.remove(id) =~= s.rooms.remove(id));
    assert(after.channels.remove(id) =~= s.channels.remove(id));
    assert(after.ready.remove(id) =~= s.ready.remove(id));
}

/// No room is made for someone who is not let through, and none without a name or an owner: the
/// request is refused for the first of these that holds, and changes nothing more than letting
/// the request through, or not, does.
pub proof fn when_no_room_is_made(
    s: StateView,
    token: Option<Seq<char>>,
    name: Seq<char>,
    owner: Seq<char>,
    max_players: Option<usize>,
    now: Timestamp,
    id: Seq<char>,
    created_at: Timestamp,
    tx: Sender<String>,
)
    ensures
        ({
            let (after, answer) = s.create(
                token,
                name,
                owner,
                max_players,
                now,
                id,
                created_at,
                tx,
            );
            let (seen, passed) = s.authenticate(token, now);
            &&& passed is Err ==> answer == Err::<(StatusCode, RoomView), Refusal>(passed->Err_0)
            &&& passed is Ok && text::trimmed(name).len() == 0 ==> answer == Err::<
                (StatusCode, RoomView),
                Refusal,
            >((StatusCode::BadRequest, "房间名不能为空"@))
            &&& passed is Ok && text::trimmed(name).len() > 0 && text::trimmed(owner).len() == 0
                ==> answer == Err::<(StatusCode, RoomView), Refusal>(
                (StatusCode::BadRequest, "房主不能为空"@),
            )
            &&& answer is Err ==> after == seen
        }),
{
}

/// Taking a room down takes all that stands under its id, and nothing else; where there was no
/// room the answer is 404. Whoever is not let through changes no room.
pub proof fn what_a_deletion_does(
    s: StateView,
    token: Option<Seq<char>>,
    id: Seq<char>,
    now: Timestamp,
)
    ensures
        ({
            let (after, answer) = s.delete(token, id, now);
            let (seen, passed) = s.authenticate(token, now);
            &&& passed is Err ==> after == seen && answer == Err::<StatusCode, Refusal>(
                passed->Err_0,
            )
            &&& passed is Ok ==> {
                &&& answer == if s.rooms.contains_key(id) {
                    Ok::<StatusCode, Refusal>(StatusCode::NoContent)
                } else {
                    Err((StatusCode::NotFound, "房间不存在"@))
                }
                &&& after.rooms == s.rooms.remove(id)
                &&& after.channels == s.channels.remove(id)
                &&& after.ready == s.ready.remove(id)
            }
            &&& after.sessions == seen.sessions && after.password == s.password
        }),
{
}

/// A player with a name who asks for a seat in a room that has one left, or in which they sit
/// already, gets it. A newcomer is then the last of the players; for one who sits there nothing
/// changes. The room keeps all else.
pub proof fn a_join_adds_the_player_at_the_end(s: StateView, id: Seq<char>, name: Seq<char>)
    requires
        s.rooms.contains_key(id),
        text::trimmed(name).len() > 0,
        s.rooms[id].owner.len() > 0,
        s.rooms[id].admins.len() > 0,
        s.rooms[id].players.len() < s.rooms[id].max_players || exists|i: int|
            0 <= i < s.rooms[id].players.len() && #[trigger] s.rooms[id].players[i]
                == text::trimmed(name),
    ensures
        ({
            let player = text::trimmed(name);
            let before = s.rooms[id];
            let (after, answer) = s.join(id, name);
            let room = after.rooms[id];
            &&& answer == Ok::<RoomView, Refusal>(room)
            &&& after.rooms.contains_key(id)
            &&& room.players == if before.players.contains(player) {
                before.players
            } else {
                before.players.push(player)
            }
            &&& room.id == before.id && room.name == before.name && room.owner == before.owner
            &&& room.admins == before.admins && room.max_players == before.max_players
            &&& room.created_at == before.created_at
            &&& after.rooms.remove(id) == s.rooms.remove(id)
            &&& after.channels == s.channels && after.ready == s.ready
            &&& after.sessions == s.sessions && after.password == s.password
        }),
{
    assert(s.join(id, name).0.rooms.remove(id) =~= s.rooms.remove(id));
}

/// A join is refused, with nothing changed, in three cases and no others: the name is blank,
/// there is no such room, or as many players as the room is for sit in it and the one who asks
/// is none of them.
pub proof fn when_a_join_is_refused(s: StateView, id: Seq<char>, name: Seq<char>)
    ensures
        ({
            let player = text::trimmed(name);
            let (after, answer) = s.join(id, name);
            let room = s.rooms[id];
            let taken = room.players.len() >= room.max_players && forall|i: int|
                0 <= i < room.players.len() ==> #[trigger] room.players[i] != player;
            &&& answer is Err <==> player.len() == 0 || !s.rooms.contains_key(id) || taken
            &&& answer is Err ==> after == s
            &&& player.len() == 0 ==> answer == Err::<RoomView, Refusal>(
                (StatusCode::BadRequest, "玩家名不能为空"@),
            )
            &&& player.len() > 0 && !s.rooms.contains_key(id) ==> answer == Err::<
                RoomView,
                Refusal,
            >((StatusCode::NotFound, "房间不存在"@))
            &&& player.len() > 0 && s.rooms.contains_key(id) && taken ==> answer == Err::<
                RoomView,
                Refusal,
            >((StatusCode::Conflict, "房间已满"@))
        }),
{
}

/// A new room is what it was asked to be, with its owner as its one player and its one
/// administrator.
pub proof fn what_a_new_room_is(
    id: Seq<char>,
    name: Seq<char>,
    owner: Seq<char>,
    max_players: nat,
    created_at: Timestamp,
)
    ensures
        ({
            let made = room::new_room(id, name, owner, max_players, created_at);
            &&& made.id == id && made.name == name && made.owner == owner
            &&& made.max_players == max_players && made.created_at == created_at
            &&& made.players.len() == 1 && made.players[0] == owner
            &&& made.admins.len() == 1 && made.admins[0] == owner
        }),
{
}

/// Whatever room a player is seated in: everyone who sits there stays, and the player comes after
/// them if they do not sit there and a seat is left. An owner and administrators stay who they
/// are; where there is no owner the player becomes it, and where there is no administrator the
/// owner does. All else stays.
pub proof fn what_seating_does(room: RoomView, player: Seq<char>)
    ensures
        ({
            let after = room.seated(player);
            &&& room.full() <==> room.players.len() >= room.max_players
            &&& room.players.contains(player) || room.players.len() >= room.max_players
                ==> after.players == room.players
            &&& !room.players.contains(player) && room.players.len() < room.max_players
                ==> after.players == room.players.push(player)
            &&& room.owner.len() > 0 ==> after.owner == room.owner
            &&& room.owner.len() == 0 ==> after.owner == player
            &&& room.admins.len() > 0 ==> after.admins == room.admins
            &&& room.admins.len() == 0 ==> after.admins.len() == 1 && after.admins[0]
                == after.owner
            &&& after.id == room.id && after.name == room.name
            &&& after.max_players == room.max_players && after.created_at == room.created_at
        }),
{
}

/// Whatever room a player goes out of: the player is in neither list any more, and the others
/// keep their order in both. Where players are left, the first of them takes over from an owner
/// who goes, and is then an administrator; and a room with an owner has an administrator. All
/// else stays.
pub proof fn what_any_departure_does(room: RoomView, player: Seq<char>)
    ensures
        ({
            let after = room.departed(player);
            let kept = text::without(room.admins, player);
            &&& after.players == text::without(room.players, player)
            &&& after.id == room.id && after.name == room.name
            &&& after.max_players == room.max_players && after.created_at == room.created_at
            &&& after.players.len() == 0 ==> after.owner.len() == 0 && after.admins.len() == 0
            &&& after.players.len() > 0 && room.owner != player ==> {
                &&& after.owner == room.owner
                &&& kept.len() > 0 || room.owner.len() == 0 ==> after.admins == kept
                &&& kept.len() == 0 && room.owner.len() > 0 ==> after.admins.len() == 1
                    && after.admins[0] == room.owner
            }
            &&& after.players.len() > 0 && room.owner == player ==> {
                &&& after.owner == after.players[0]
                &&& kept.contains(after.owner) ==> after.admins == kept
                &&& !kept.contains(after.owner) ==> after.admins == kept.push(after.owner)
            }
        }),
{
}

/// A player who goes out of a room in which others stay is no longer among its players; the
/// others keep their order. The room keeps its id, its name, what it is for and when it was
/// made. It keeps its owner too, unless that is who goes: then the first of those who stay owns
/// it. Its owner is its one administrator.
pub proof fn what_a_departure_keeps(room: RoomView, player: Seq<char>)
    requires
        room.inv(),
        exists|i: int| 0 <= i < room.players.len() && #[trigger] room.players[i] != player,
    ensures
        ({
            let after = room.departed(player);
            &&& after.players == text::without(room.players, player)
            &&& after.players.len() > 0
            &&& !after.players.contains(player)
            &&& forall|p: Seq<char>|
                p != player ==> (#[trigger] after.players.contains(p) <==> room.players.contains(p))
            &&& after.owner == if room.owner == player {
                after.players[0]
            } else {
                room.owner
            }
            &&& after.admins.len() == 1 && after.admins[0] == after.owner
            &&& after.id == room.id
            &&& after.name == room.name
            &&& after.max_players == room.max_players
            &&& after.created_at == room.created_at
        }),
{
    let rest = text::without(room.players, player);
    let i = choose|i: int| 0 <= i < room.players.len() && #[trigger] room.players[i] != player;
    text::lemma_without(room.players, player);
    assert(room.players.contains(room.players[i]));
    assert(rest.contains(room.players[i]));
    room::lemma_departed(room, player);
}

/// A room whose last player goes has no players, owner or administrators left, and keeps all
/// else.
pub proof fn what_the_last_departure_keeps(room: RoomView, player: Seq<char>)
    requires
        forall|i: int| 0 <= i < room.players.len() ==> #[trigger] room.players[i] == player,
    ensures
        ({
            let after = room.departed(player);
            &&& after.players.len() == 0
            &&& after.admins.len() == 0
            &&& after.owner.len() == 0
            &&& after.id == room.id
            &&& after.name == room.name
            &&& after.max_players == room.max_players
            &&& after.created_at == room.created_at
        }),
{
    let rest = text::without(room.players, player);
    text::lemma_without(room.players, player);
    if rest.len() > 0 {
        assert(rest.contains(rest[0]));
        assert(room.players.contains(rest[0]));
    }
}

/// A leave with a blank name is refused and changes nothing. Where there is no such room it is
/// answered 404, and only the player's being ready there ends. Otherwise the answer is the room
/// as the player's departure leaves it; it stays if anyone is left in it, and else it, its
/// channel and its ready players are gone. All else stays.
pub proof fn what_a_leave_does(s: StateView, id: Seq<char>, name: Seq<char>)
    ensures
        ({
            let player = text::trimmed(name);
            let (after, answer) = s.leave(id, name);
            let room = s.rooms[id].departed(player);
            &&& player.len() == 0 ==> after == s && answer == Err::<RoomView, Refusal>(
                (StatusCode::BadRequest, "玩家名不能为空"@),
            )
            &&& player.len() > 0 && !s.rooms.contains_key(id) ==> {
                &&& answer == Err::<RoomView, Refusal>((StatusCode::NotFound, "房间不存在"@))
                &&& after.rooms == s.rooms && after.channels == s.channels
                &&& after.ready.contains_key(id) == s.ready.contains_key(id)
                &&& s.ready.contains_key(id) ==> after.ready[id] == text::without(s.ready[id], player)
            }
            &&& player.len() > 0 && s.rooms.contains_key(id) ==> {
                &&& answer == Ok::<RoomView, Refusal>(room)
                &&& room.players.len() > 0 ==> {
                    &&& after.rooms.contains_key(id) && after.rooms[id] == room
                    &&& after.channels == s.channels
                    &&& after.ready.contains_key(id) == s.ready.contains_key(id)
                    &&& s.ready.contains_key(id) ==> after.ready[id] == text::without(s.ready[id], player)
                }
                &&& room.players.len() == 0 ==> {
                    &&& !after.rooms.contains_key(id)
                    &&& after.channels == s.channels.remove(id)
                    &&& !after.ready.contains_key(id)
                }
            }
            &&& after.rooms.remove(id) == s.rooms.remove(id)
            &&& after.ready.remove(id) == s.ready.remove(id)
            &&& after.sessions == s.sessions && after.password == s.password
        }),
{
    let after = s.leave(id, name).0;
    assert(after.rooms.remove(id) =~= s.rooms.remove(id));
    assert(after.ready.remove(id) =~= s.ready.remove(id));
}

/// A removal is refused for the first of these that holds: the target has no name, there is no
/// such room, whoever asks may not manage it, the target does not sit in it. Otherwise the
/// target leaves.
pub proof fn what_a_removal_does(
    s: StateView,
    token: Option<Seq<char>>,
    id: Seq<char>,
    requester: Option<Seq<char>>,
    name: Seq<char>,
    now: Timestamp,
)
    ensures
        ({
            let target = text::trimmed(name);
            let asking = if requester is Some {
                text::trimmed(requester->0)
            } else {
                Seq::empty()
            };
            let (after, answer) = s.kick(token, id, requester, name, now);
            let (seen, permitted) = s.permit(token, s.rooms[id], asking, now);
            let sits = exists|i: int|
                0 <= i < s.rooms[id].players.len() && #[trigger] s.rooms[id].players[i] == target;
            &&& target.len() == 0 ==> after == s && answer == Err::<RoomView, Refusal>(
                (StatusCode::BadRequest, "目标玩家不能为空"@),
            )
            &&& target.len() > 0 && !s.rooms.contains_key(id) ==> after == s && answer == Err::<
                RoomView,
                Refusal,
            >((StatusCode::NotFound, "房间不存在"@))
            &&& target.len() > 0 && s.rooms.contains_key(id) && permitted is Err ==> after == seen
                && answer == Err::<RoomView, Refusal>(permitted->Err_0)
            &&& target.len() > 0 && s.rooms.contains_key(id) && permitted is Ok && !sits ==> {
                &&& answer == Err::<RoomView, Refusal>(
                    (StatusCode::NotFound, "目标玩家不在房间中"@),
                )
                &&& after.rooms == s.rooms && after.channels == s.channels
                &&& after.ready.contains_key(id) == s.ready.contains_key(id)
                &&& s.ready.contains_key(id) ==> after.ready[id] == text::without(s.ready[id], target)
                &&& after.ready.remove(id) == s.ready.remove(id)
                &&& after.sessions == seen.sessions && after.password == s.password
            }
            &&& target.len() > 0 && s.rooms.contains_key(id) && permitted is Ok && sits ==> {
                let (gone, left) = s.leave(id, name);
                &&& answer == left && answer is Ok
                &&& after.rooms == gone.rooms && after.channels == gone.channels
                &&& after.ready == gone.ready
                &&& after.sessions == seen.sessions && after.password == s.password
            }
        }),
{
    let target = text::trimmed(name);
    let after = s.kick(token, id, requester, name, now).0;
    if target.len() > 0 && s.rooms.contains_key(id) && !s.rooms[id].players.contains(target) {
        assert(after.ready.remove(id) =~= s.ready.remove(id));
    }
}

} // verus!
