//! What the values that the server handles stand for: texts, times, messages and answers.
use axum::http::HeaderMap;
use vstd::prelude::*;
use crate::admin::{self, LoginView, StatsView};
use crate::api::{
    self, AdminLoginResponse, AdminLogoutResponse, AdminVerifyResponse, ApiError, Refusal,
    StatsResponse, StatusCode,
};
use crate::channel;
use crate::clock::Timestamp;
use crate::headers;
use crate::ids;
use crate::json::{self, FieldView, JsonField, JsonValue, ValueView};
use crate::link::{self, Frame, FrameView, Link, LinkSync};
use crate::lobby;
use crate::model::{self, SessionView, StateView};
use crate::room::{Room, RoomView};
use crate::state::AdminSession;
use crate::text;

verus! {

/// A list of strings stands for their texts, in their order.
pub proof fn strings_stand_for_their_texts(list: Seq<String>)
    ensures
        text::texts(list).len() == list.len(),
        forall|i: int| 0 <= i < list.len() ==> #[trigger] text::texts(list)[i] == list[i]@,
{
}

/// A room stands for what its fields hold.
pub proof fn a_room_stands_for_its_fields(r: Room)
    ensures
        r@.id == r.id@,
        r@.name == r.name@,
        r@.owner == r.owner@,
        r@.max_players == r.max_players,
        r@.created_at == r.created_at,
        r@.admins.len() == r.admins@.len(),
        r@.players.len() == r.players@.len(),
        forall|i: int| 0 <= i < r.admins@.len() ==> #[trigger] r@.admins[i] == r.admins@[i]@,
        forall|i: int| 0 <= i < r.players@.len() ==> #[trigger] r@.players[i] == r.players@[i]@,
{
}

/// A session stands for what its fields hold.
pub proof fn a_session_stands_for_its_fields(a: AdminSession)
    ensures
        a@.username == a.username@,
        a@.created_at == a.created_at,
        a@.expires_at == a.expires_at,
{
}

/// A `link_sync` stands for what its fields hold.
pub proof fn a_sync_stands_for_its_fields(l: LinkSync)
    ensures
        l@.room == l.room@,
        l@.host == l.host@,
        l@.can_start == l.can_start,
        l@.players.len() == l.players@.len(),
        l@.ready_players.len() == l.ready_players@.len(),
        forall|i: int| 0 <= i < l.players@.len() ==> #[trigger] l@.players[i] == l.players@[i]@,
        forall|i: int|
            0 <= i < l.ready_players@.len() ==> #[trigger] l@.ready_players[i]
                == l.ready_players@[i]@,
{
}

/// Frames, and the members of messages that come in and go out, stand for what they hold.
pub proof fn messages_stand_for_what_they_hold(s: String, b: bool, n: i64, list: Vec<String>)
    ensures
        Frame::Text(s)@ == FrameView::Text(s@),
        Frame::Close@ == FrameView::Close,
        Frame::Other@ == FrameView::Other,
        JsonField::Text(s)@ == FieldView::Text(s@),
        JsonField::Flag(b)@ == FieldView::Flag(b),
        JsonField::Other@ == FieldView::Other,
        JsonValue::Text(s)@ == ValueView::Text(s@),
        JsonValue::Flag(b)@ == ValueView::Flag(b),
        JsonValue::Integer(n)@ == ValueView::Integer(n as int),
        JsonValue::Texts(list)@ is Texts,
        JsonValue::Texts(list)@->Texts_0.len() == list@.len(),
        forall|i: int|
            0 <= i < list@.len() ==> #[trigger] JsonValue::Texts(list)@->Texts_0[i] == list@[i]@,
{
}

/// The members of an object stand for their names and values, in their order.
pub proof fn members_stand_for_names_and_values(
    read: Seq<(String, JsonField)>,
    written: Seq<(String, JsonValue)>,
    plain: Seq<(String, String)>,
)
    ensures
        json::field_list(read).len() == read.len(),
        json::value_list(written).len() == written.len(),
        json::string_list(plain).len() == plain.len(),
        forall|i: int|
            0 <= i < read.len() ==> #[trigger] json::field_list(read)[i] == (
                read[i].0@,
                read[i].1@,
            ),
        forall|i: int|
            0 <= i < written.len() ==> #[trigger] json::value_list(written)[i] == (
                written[i].0@,
                written[i].1@,
            ),
        forall|i: int|
            0 <= i < plain.len() ==> #[trigger] json::string_list(plain)[i] == (
                plain[i].0@,
                plain[i].1@,
            ),
{
}

/// A message that is no object has no members; one that is has those it lists.
pub proof fn only_objects_have_members(list: Vec<(String, JsonField)>, name: Seq<char>)
    ensures
        json::fields_of(None) is None,
        json::fields_of(Some(list)) == Some(json::field_list(list@)),
        json::member(None, name) is None,
{
}

/// The member of a name is the first that bears it, and there is none where no member does.
pub proof fn a_member_is_the_first_of_its_name(
    list: Seq<(Seq<char>, FieldView)>,
    name: Seq<char>,
    i: int,
)
    requires
        0 <= i <= list.len(),
        forall|j: int| 0 <= j < i ==> (#[trigger] list[j]).0 != name,
    ensures
        i == list.len() ==> json::member(Some(list), name) is None,
        i < list.len() && list[i].0 == name ==> json::member(Some(list), name) == Some(list[i].1),
    decreases list.len(),
{
    if list.len() > 0 && i > 0 {
        let rest = list.drop_first();
        assert(list[0].0 != name);
        assert forall|j: int| 0 <= j < i - 1 implies (#[trigger] rest[j]).0 != name by {
            assert(rest[j] == list[j + 1]);
        }
        a_member_is_the_first_of_its_name(rest, name, i - 1);
    }
}

/// Which characters are whitespace.
pub proof fn whitespace_characters(c: char)
    ensures
        text::is_whitespace(c) <==> {
            let n = c as u32;
            ||| 0x9 <= n <= 0xd
            ||| n == 0x20
            ||| n == 0x85
            ||| n == 0xa0
            ||| n == 0x1680
            ||| 0x2000 <= n <= 0x200a
            ||| n == 0x2028
            ||| n == 0x2029
            ||| n == 0x202f
            ||| n == 0x205f
            ||| n == 0x3000
        },
{
}

/// Trimming takes the whitespace off both ends of a text, all of it and nothing else.
pub proof fn trimming_takes_whitespace_off_the_ends(s: Seq<char>)
    ensures
        exists|i: int, j: int|
            {
                &&& 0 <= i <= j <= s.len()
                &&& text::trimmed(s) == #[trigger] s.subrange(i, j)
                &&& forall|k: int| 0 <= k < i ==> text::is_whitespace(#[trigger] s[k])
                &&& forall|k: int| j <= k < s.len() ==> text::is_whitespace(#[trigger] s[k])
                &&& i < j ==> !text::is_whitespace(s[i]) && !text::is_whitespace(s[j - 1])
            },
{
    let i = text::lemma_trimmed_front(s);
    let front = text::trimmed_front(s);
    let m = text::lemma_trimmed_back(front);
    let j = i + m;
    assert(text::trimmed(s) =~= s.subrange(i, j));
    assert forall|k: int| j <= k < s.len() implies text::is_whitespace(#[trigger] s[k]) by {
        assert(front[k - i] == s[k]);
    }
    if i < j {
        assert(front[0] == s[i]);
        assert(front[m - 1] == s[j - 1]);
    }
}

/// Taking a name out of a list takes out its occurrences and keeps all else in its order: this
/// holds of the empty list, and of every list by what it does to the last name.
pub proof fn taking_a_name_out_keeps_the_rest(
    list: Seq<Seq<char>>,
    last: Seq<char>,
    name: Seq<char>,
)
    ensures
        text::without(Seq::empty(), name) == Seq::<Seq<char>>::empty(),
        last == name ==> text::without(list.push(last), name) == text::without(list, name),
        last != name ==> text::without(list.push(last), name) == text::without(list, name).push(
            last,
        ),
{
    text::lemma_without_push(list, last, name);
    text::lemma_without(Seq::empty(), name);
}

/// The points in time that there are, and how they are ordered.
pub proof fn points_in_time(a: Timestamp, b: Timestamp)
    ensures
        a.valid() <==> -8334601228800 <= a.secs <= 8210266876799 && a.nanos < 1_000_000_000,
        a.instant() == a.secs * 1_000_000_000 + a.nanos,
        a.valid() && b.valid() ==> (a.after(b) <==> a.instant() > b.instant()),
        a.valid() && b.valid() && a.instant() == b.instant() ==> a == b,
{
}

/// A whole number of hours on is that many times 3600 seconds on.
pub proof fn hours_are_3600_seconds(a: Timestamp, hours: int)
    requires
        i64::MIN <= a.secs + hours * 3600 <= i64::MAX,
    ensures
        a.hours_later(hours).instant() == a.instant() + hours * 3600 * 1_000_000_000,
        a.hours_later(hours).nanos == a.nanos,
{
}

/// A header value is text where each of its bytes is visible ASCII, a space or a tab, and then
/// it is those characters.
pub proof fn header_values_are_ascii(bytes: Seq<u8>)
    ensures
        headers::bytes_text(bytes) is Some <==> forall|i: int|
            0 <= i < bytes.len() ==> (32 <= #[trigger] bytes[i] <= 126 || bytes[i] == 9),
        headers::bytes_text(bytes) is Some ==> {
            let t = headers::bytes_text(bytes)->0;
            &&& t.len() == bytes.len()
            &&& forall|i: int| 0 <= i < bytes.len() ==> #[trigger] t[i] == bytes[i] as char
        },
{
    if forall|i: int|
        0 <= i < bytes.len() ==> (32 <= #[trigger] bytes[i] <= 126 || bytes[i] == 9) {
        assert forall|i: int| 0 <= i < bytes.len() implies headers::is_text_byte(
            #[trigger] bytes[i],
        ) by {
        }
    }
    if headers::bytes_text(bytes) is Some {
        assert forall|i: int| 0 <= i < bytes.len() implies (32 <= #[trigger] bytes[i] <= 126
            || bytes[i] == 9) by {
            assert(headers::is_text_byte(bytes[i]));
        }
    }
}

/// The token of a request is the text of its header `x-admin-token`, trimmed. There is none
/// where the header is missing, is not text or is blank.
pub proof fn the_token_is_the_trimmed_header(h: HeaderMap)
    ensures
        ({
            let held = headers::header_values(h);
            let raw = headers::bytes_text(held["x-admin-token"@]);
            if held.contains_key("x-admin-token"@) && raw is Some && text::trimmed(raw->0).len()
                > 0 {
                headers::admin_token(h) == Some(text::trimmed(raw->0))
            } else {
                headers::admin_token(h) is None
            }
        }),
{
}

/// The token in a header value is that value trimmed, unless it is missing or blank.
pub proof fn the_token_in_a_value(value: Option<Seq<char>>, s: String)
    ensures
        headers::token_in(None) is None,
        value is Some && text::trimmed(value->0).len() == 0 ==> headers::token_in(value) is None,
        value is Some && text::trimmed(value->0).len() > 0 ==> headers::token_in(value) == Some(
            text::trimmed(value->0),
        ),
        headers::text_of(None) is None,
        headers::text_of(Some(s)) == Some(s@),
{
}

/// The shape of an identifier that is drawn at random.
pub proof fn identifiers_have_the_shape_of_uuids(s: Seq<char>, i: int)
    requires
        ids::is_uuid_text(s),
        0 <= i < 36,
    ensures
        s.len() == 36,
        i == 8 || i == 13 || i == 18 || i == 23 ==> s[i] == '-',
        i != 8 && i != 13 && i != 18 && i != 23 ==> '0' <= s[i] <= '9' || 'a' <= s[i] <= 'f',
        s[14] == '4',
        s[19] == '8' || s[19] == '9' || s[19] == 'a' || s[19] == 'b',
{
    if i != 8 && i != 13 && i != 18 && i != 23 {
        assert(ids::is_hex_digit(s[i]));
    }
}

/// The number of each status.
pub proof fn status_numbers()
    ensures
        StatusCode::Created.code() == 201,
        StatusCode::NoContent.code() == 204,
        StatusCode::BadRequest.code() == 400,
        StatusCode::Unauthorized.code() == 401,
        StatusCode::Forbidden.code() == 403,
        StatusCode::NotFound.code() == 404,
        StatusCode::Conflict.code() == 409,
{
}

/// The status and the words of each refusal.
pub proof fn refusals_are_worded()
    ensures
        api::wrong_credentials() == (StatusCode::Unauthorized, "管理员账号或密码错误"@),
        api::missing_token() == (StatusCode::Unauthorized, "缺少管理员令牌"@),
        api::dead_token() == (StatusCode::Forbidden, "管理员令牌无效或已过期"@),
        api::unknown_token() == (StatusCode::Forbidden, "管理员令牌无效"@),
        api::no_such_room() == (StatusCode::NotFound, "房间不存在"@),
        api::blank_room_name() == (StatusCode::BadRequest, "房间名不能为空"@),
        api::blank_owner() == (StatusCode::BadRequest, "房主不能为空"@),
        api::blank_player() == (StatusCode::BadRequest, "玩家名不能为空"@),
        api::blank_target() == (StatusCode::BadRequest, "目标玩家不能为空"@),
        api::room_full() == (StatusCode::Conflict, "房间已满"@),
        api::absent_target() == (StatusCode::NotFound, "目标玩家不在房间中"@),
        api::not_permitted() == (StatusCode::Forbidden, "需要房间管理员或平台管理员权限"@),
{
}

/// Every answer that refuses says its status and its message.
pub proof fn refusals_say_status_and_message(e: (StatusCode, ApiError))
    ensures
        api::refusal(e) == (e.0, e.1.message@),
        api::room_answer(Err(e)) == Err::<RoomView, Refusal>((e.0, e.1.message@)),
        lobby::create_answer(Err(e)) == Err::<(StatusCode, RoomView), Refusal>(
            (e.0, e.1.message@),
        ),
        lobby::delete_answer(Err(e)) == Err::<StatusCode, Refusal>((e.0, e.1.message@)),
        link::link_answer(Err(e)) == Err::<(), Refusal>((e.0, e.1.message@)),
        admin::login_answer(Err(e)) == Err::<LoginView, Refusal>((e.0, e.1.message@)),
        admin::verify_answer(Err(e)) == Err::<(bool, SessionView), Refusal>((e.0, e.1.message@)),
        admin::logout_answer(Err(e)) == Err::<bool, Refusal>((e.0, e.1.message@)),
        admin::stats_answer(Err(e)) == Err::<StatsView, Refusal>((e.0, e.1.message@)),
        admin::session_answer(Err(e)) == Err::<SessionView, Refusal>((e.0, e.1.message@)),
        admin::permission(Err(e)) == Err::<(), Refusal>((e.0, e.1.message@)),
{
}

/// Every answer that grants something says all that it carries.
pub proof fn answers_say_what_they_carry(
    r: Room,
    code: StatusCode,
    l: Link,
    login: AdminLoginResponse,
    verify: AdminVerifyResponse,
    logout: AdminLogoutResponse,
    stats: StatsResponse,
    session: AdminSession,
)
    ensures
        api::room_answer(Ok(r)) == Ok::<RoomView, Refusal>(r@),
        lobby::create_answer(Ok((code, r))) == Ok::<(StatusCode, RoomView), Refusal>((code, r@)),
        lobby::delete_answer(Ok(code)) == Ok::<StatusCode, Refusal>(code),
        link::link_answer(Ok(l)) == Ok::<(), Refusal>(()),
        admin::login_answer(Ok(login)) is Ok,
        ({
            let v = admin::login_answer(Ok(login))->Ok_0;
            &&& v.token == login.token@
            &&& v.role == login.role@
            &&& v.expires_at == login.expires_at
        }),
        admin::verify_answer(Ok(verify)) is Ok,
        ({
            let v = admin::verify_answer(Ok(verify))->Ok_0;
            &&& v.0 == verify.valid
            &&& v.1.username == verify.username@
            &&& v.1.created_at == verify.created_at
            &&& v.1.expires_at == verify.expires_at
        }),
        admin::logout_answer(Ok(logout)) == Ok::<bool, Refusal>(logout.ok),
        admin::stats_answer(Ok(stats)) is Ok,
        ({
            let v = admin::stats_answer(Ok(stats))->Ok_0;
            &&& v.timestamp == stats.timestamp
            &&& v.room_count == stats.room_count
            &&& v.connected_players == stats.connected_players
            &&& v.active_admin_sessions == stats.active_admin_sessions
        }),
        admin::session_answer(Ok(session)) == Ok::<SessionView, Refusal>(session@),
        admin::session_of(Some(session)) == Some(session@),
        admin::session_of(None) is None,
        admin::permission(Ok(())) == Ok::<(), Refusal>(()),
{
}

/// What holds of every sound state: each room stands under its own id, its owner sits in it and
/// is its one administrator, nobody sits in it twice or without a name, it is for 2 to 8 players
/// and has no more, and it has a channel for 128 messages that no other id has and a list of
/// ready players in which nobody stands twice; every session is the administrator's and lasts 24
/// hours.
pub proof fn what_is_sound(s: StateView, id: Seq<char>, token: Seq<char>, other: Seq<char>)
    requires
        s.inv(),
    ensures
        s.rooms.contains_key(id) ==> {
            let r = s.rooms[id];
            &&& r.id == id
            &&& r.name.len() > 0
            &&& r.players.contains(r.owner)
            &&& r.admins == seq![r.owner]
            &&& forall|i: int, j: int|
                0 <= i < j < r.players.len() ==> #[trigger] r.players[i]
                    != #[trigger] r.players[j]
            &&& forall|i: int| 0 <= i < r.players.len() ==> (#[trigger] r.players[i]).len() > 0
            &&& r.players.len() <= r.max_players
            &&& 2 <= r.max_players <= 8
            &&& s.channels.contains_key(id)
            &&& s.ready.contains_key(id)
        },
        s.channels.contains_key(id) ==> channel::channel_capacity(s.channels[id]) == 128,
        s.channels.contains_key(id) && s.channels.contains_key(other) && id != other
            ==> s.channels[id] != s.channels[other],
        s.ready.contains_key(id) ==> forall|i: int, j: int|
            0 <= i < j < s.ready[id].len() ==> #[trigger] s.ready[id][i] != #[trigger] s.ready[id][j],
        s.sessions.contains_key(token) ==> {
            let session = s.sessions[token];
            &&& session.username == "admin"@
            &&& session.expires_at.instant() == session.created_at.instant() + 24 * 3600
                * 1_000_000_000
        },
{
    if s.rooms.contains_key(id) {
        let r = s.rooms[id];
        assert(r.inv());
        assert forall|i: int| 0 <= i < r.players.len() implies (#[trigger] r.players[i]).len()
            > 0 by {
            assert(r.players.contains(r.players[i]));
        }
    }
}

/// A new server keeps nothing but its password.
pub proof fn a_new_server_is_empty(password: Seq<char>, key: Seq<char>)
    ensures
        ({
            let s = model::initial(password);
            &&& !s.rooms.contains_key(key)
            &&& !s.channels.contains_key(key)
            &&& !s.ready.contains_key(key)
            &&& !s.sessions.contains_key(key)
            &&& s.password == password
        }),
{
}

/// The seats taken are counted room by room: none without rooms, and with one room more as many
/// more as players sit in it.
pub proof fn seats_are_counted_by_room(
    rooms: Map<Seq<char>, RoomView>,
    id: Seq<char>,
    room: RoomView,
)
    requires
        rooms.dom().finite(),
        !rooms.contains_key(id),
    ensures
        model::seats_taken(Map::empty()) == 0,
        model::seats_taken(rooms.insert(id, room)) == model::seats_taken(rooms)
            + room.players.len(),
{
    let more = rooms.insert(id, room);
    model::lemma_seats_taken_remove(more, id);
    assert(more.remove(id) =~= rooms);
}

} // verus!
