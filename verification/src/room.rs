//! A room: who sits in it, who owns it, who may manage it.
use vstd::prelude::*;
use crate::clock::Timestamp;
use crate::text;

verus! {

/// The least and the greatest number of players that a room can be made for.
pub const MIN_ROOM_PLAYERS: usize = 2;

pub const MAX_ROOM_PLAYERS: usize = 8;

/// How many players a room that a connection opens is for.
pub const LINK_ROOM_PLAYERS: usize = 4;

/// A room.
#[derive(Debug)]
pub struct Room {
    pub id: String,
    pub name: String,
    pub owner: String,
    pub admins: Vec<String>,
    pub max_players: usize,
    pub players: Vec<String>,
    pub created_at: Timestamp,
}

/// What a [`Room`] stands for.
#[verifier::ext_equal]
pub struct RoomView {
    pub id: Seq<char>,
    pub name: Seq<char>,
    pub owner: Seq<char>,
    pub admins: Seq<Seq<char>>,
    pub max_players: nat,
    pub players: Seq<Seq<char>>,
    pub created_at: Timestamp,
}

impl View for Room {
    type V = RoomView;

    open spec fn view(&self) -> RoomView {
        RoomView {
            id: self.id@,
            name: self.name@,
            owner: self.owner@,
            admins: text::texts(self.admins@),
            max_players: self.max_players as nat,
            players: text::texts(self.players@),
            created_at: self.created_at,
        }
    }
}

/// A room as it is made: its owner is the one player in it, and its one administrator.
pub open spec fn new_room(
    id: Seq<char>,
    name: Seq<char>,
    owner: Seq<char>,
    max_players: nat,
    created_at: Timestamp,
) -> RoomView {
    RoomView {
        id,
        name,
        owner,
        admins: seq![owner],
        max_players,
        players: seq![owner],
        created_at,
    }
}

impl RoomView {
    /// What holds of every room that is kept: its owner sits in it and is its one
    /// administrator, no player sits in it twice, and there are no more of them than it is for.
    pub open spec fn inv(self) -> bool {
        &&& self.players.contains(self.owner)
        &&& self.admins == seq![self.owner]
        &&& self.players.no_duplicates()
        &&& self.players.len() <= self.max_players
        &&& MIN_ROOM_PLAYERS <= self.max_players <= MAX_ROOM_PLAYERS
        &&& forall|p: Seq<char>| #[trigger] self.players.contains(p) ==> p.len() > 0
        &&& self.name.len() > 0
        &&& self.created_at.valid()
    }

    /// Every seat is taken.
    pub open spec fn full(self) -> bool {
        self.players.len() >= self.max_players
    }

    /// The room once `player` asked for a seat: seated, unless already there or the room is
    /// full. A room without an owner gets the player as its owner, and one without
    /// administrators gets its owner.
    pub open spec fn seated(self, player: Seq<char>) -> RoomView {
        let owner = if self.owner.len() == 0 {
            player
        } else {
            self.owner
        };
        RoomView {
            players: if self.players.contains(player) || self.full() {
                self.players
            } else {
                self.players.push(player)
            },
            owner,
            admins: if self.admins.len() == 0 {
                seq![owner]
            } else {
                self.admins
            },
            ..self
        }
    }

    /// The room once `player` left it. The player who came first of those that are left takes
    /// over from an owner who leaves, as an administrator too; an empty room has no owner and no
    /// administrators; a room with an owner has at least that administrator.
    pub open spec fn departed(self, player: Seq<char>) -> RoomView {
        let players = text::without(self.players, player);
        let kept = text::without(self.admins, player);
        if players.len() == 0 {
            RoomView { players, owner: Seq::empty(), admins: Seq::empty(), ..self }
        } else if self.owner == player {
            RoomView {
                players,
                owner: players[0],
                admins: if kept.contains(players[0]) {
                    kept
                } else {
                    kept.push(players[0])
                },
                ..self
            }
        } else {
            RoomView {
                players,
                admins: if kept.len() == 0 && self.owner.len() > 0 {
                    seq![self.owner]
                } else {
                    kept
                },
                ..self
            }
        }
    }
}

/// A room as it is made keeps [`RoomView::inv`].
pub proof fn lemma_new_room(
    id: Seq<char>,
    name: Seq<char>,
    owner: Seq<char>,
    max_players: nat,
    created_at: Timestamp,
)
    requires
        name.len() > 0,
        owner.len() > 0,
        MIN_ROOM_PLAYERS <= max_players <= MAX_ROOM_PLAYERS,
        created_at.valid(),
    ensures
        new_room(id, name, owner, max_players, created_at).inv(),
{
    let room = new_room(id, name, owner, max_players, created_at);
    assert(room.players[0] == owner);
    assert forall|p: Seq<char>| #[trigger] room.players.contains(p) implies p.len() > 0 by {
        assert(p == owner);
    }
}

/// Seating a player keeps [`RoomView::inv`], the owner and the administrators.
pub proof fn lemma_seated(room: RoomView, player: Seq<char>)
    requires
        room.inv(),
        player.len() > 0,
    ensures
        room.seated(player).inv(),
        room.seated(player).owner == room.owner,
        room.seated(player).admins == room.admins,
{
    let after = room.seated(player);
    assert(room.owner.len() > 0);
    assert forall|p: Seq<char>| #[trigger]
        after.players.contains(p) == (room.players.contains(p) || (p == player && !room.full())) by {
        text::lemma_push_contains(room.players, player, p);
    }
    assert(after.players.contains(after.owner));
}

/// A departure that leaves someone behind keeps [`RoomView::inv`]; one that does not empties
/// the room.
pub proof fn lemma_departed(room: RoomView, player: Seq<char>)
    requires
        room.inv(),
    ensures
        room.departed(player).players == text::without(room.players, player),
        !room.departed(player).players.contains(player),
        room.departed(player).players.len() > 0 ==> room.departed(player).inv(),
{
    let after = room.departed(player);
    text::lemma_without(room.players, player);
    text::lemma_without(room.admins, player);
    if after.players.len() > 0 {
        let kept = text::without(room.admins, player);
        reveal(Seq::filter);
        assert(room.admins.drop_last() =~= Seq::empty());
        assert(text::without(room.admins.drop_last(), player) =~= Seq::empty());
        assert(after.players.contains(after.players[0]));
        if room.owner == player {
            assert(kept =~= Seq::empty());
            assert(after.admins =~= seq![after.owner]);
        } else {
            assert(kept =~= seq![room.owner]);
            assert(after.admins =~= seq![after.owner]);
            assert(after.players.contains(after.owner));
        }
        assert forall|p: Seq<char>| #[trigger] after.players.contains(p) implies p.len() > 0 by {
            assert(room.players.contains(p));
        }
    }
}

/// The departure of a player who does not own the room changes who sits in it, and nothing
/// else.
pub proof fn lemma_departed_guest(room: RoomView, player: Seq<char>)
    requires
        room.inv(),
        room.owner != player,
    ensures
        room.departed(player) == (RoomView {
            players: text::without(room.players, player),
            ..room
        }),
{
    text::lemma_without(room.players, player);
    assert(text::without(room.players, player).contains(room.owner));
    assert(!room.admins.contains(player));
    text::lemma_without_absent(room.admins, player);
    assert(room.departed(player) =~= (RoomView {
        players: text::without(room.players, player),
        ..room
    }));
}

/// The departure of someone who does not sit in a room changes nothing of it.
pub proof fn lemma_departed_stranger(room: RoomView, player: Seq<char>)
    requires
        room.inv(),
        !room.players.contains(player),
    ensures
        room.departed(player) == room,
{
    text::lemma_without_absent(room.players, player);
    lemma_departed_guest(room, player);
    assert(room.players.len() > 0);
    assert(room.departed(player) =~= room);
}

impl Clone for Room {
    fn clone(&self) -> (r: Self)
        ensures
            r@ == self@,
    {
        Room {
            id: self.id.clone(),
            name: self.name.clone(),
            owner: self.owner.clone(),
            admins: text::clone_texts(&self.admins),
            max_players: self.max_players,
            players: text::clone_texts(&self.players),
            created_at: self.created_at,
        }
    }
}

/// A list with one name.
fn one_text(s: &String) -> (r: Vec<String>)
    ensures
        text::texts(r@) == seq![s@],
{
    let mut r: Vec<String> = Vec::new();
    r.push(s.clone());
    assert(text::texts(r@) =~= seq![s@]);
    r
}

impl Room {
    /// A room as it is made.
    pub fn new(
        id: String,
        name: String,
        owner: String,
        max_players: usize,
        created_at: Timestamp,
    ) -> (r: Room)
        ensures
            r@ == new_room(id@, name@, owner@, max_players as nat, created_at),
    {
        let admins = one_text(&owner);
        let players = one_text(&owner);
        Room { id, name, owner, admins, max_players, players, created_at }
    }

    /// Whether `player` sits in the room.
    pub fn has_player(&self, player: &String) -> (r: bool)
        ensures
            r == self@.players.contains(player@),
    {
        text::contains_text(&self.players, player)
    }

    /// Whether `player` could get a seat, or has one.
    pub fn admits(&self, player: &String) -> (r: bool)
        ensures
            r == (self@.players.contains(player@) || !self@.full()),
    {
        self.has_player(player) || self.players.len() < self.max_players
    }

    /// Whether `requester` is an administrator of the room. No one without a name is.
    pub fn is_room_admin(&self, requester: &String) -> (r: bool)
        ensures
            r == (requester@.len() > 0 && self@.admins.contains(requester@)),
    {
        !requester.as_str().is_empty() && text::contains_text(&self.admins, requester)
    }

    /// Gives `player` a seat, unless already there or the room is full.
    pub fn seat(&mut self, player: &String)
        ensures
            final(self)@ == old(self)@.seated(player@),
    {
        if !text::contains_text(&self.players, player) && self.players.len() < self.max_players {
            text::push_text(&mut self.players, player);
        }
        if self.owner.as_str().is_empty() {
            self.owner = player.clone();
        }
        if self.admins.is_empty() {
            let owner = self.owner.clone();
            text::push_text(&mut self.admins, &owner);
        }
        assert(self@ =~= old(self)@.seated(player@));
    }

    /// Takes `player` out of the room.
    pub fn depart(&mut self, player: &String)
        ensures
            final(self)@ == old(self)@.departed(player@),
    {
        let was_owner = self.owner == *player;
        self.players = text::without_text(&self.players, player);
        self.admins = text::without_text(&self.admins, player);
        if self.players.is_empty() {
            self.owner = String::new();
            self.admins = Vec::new();
        } else if was_owner {
            self.owner = self.players[0].clone();
            if !text::contains_text(&self.admins, &self.owner) {
                let owner = self.owner.clone();
                text::push_text(&mut self.admins, &owner);
            }
        } else if self.admins.is_empty() && !self.owner.as_str().is_empty() {
            let owner = self.owner.clone();
            text::push_text(&mut self.admins, &owner);
        }
        assert(self@ =~= old(self)@.departed(player@));
    }
}

} // verus!
