//! What each request of an administrator does, and when it is refused.
use vstd::prelude::*;
use crate::admin::{self, LoginView, StatsView};
use crate::api::{Refusal, StatusCode};
use crate::clock::{self, Timestamp};
use crate::model::{self, SessionView, StateView};
use crate::room::RoomView;
use crate::text;

verus! {

/// The administrator is whoever gives the name `admin`, with or without whitespace around it,
/// and exactly the password.
pub proof fn who_the_administrator_is(s: StateView, username: Seq<char>, password: Seq<char>)
    ensures
        s.knows(username, password) <==> text::trimmed(username) == "admin"@ && password
            == s.password,
{
}

/// A session can begin as long as its end, 24 hours on, can be represented.
pub proof fn when_a_session_fits(now: Timestamp)
    ensures
        admin::session_fits(now) <==> now.secs + 24 * 3600 <= 8210266876799,
{
}

/// A login with the right credentials keeps one session under the token, which begins then and
/// ends 24 hours later, tells of that end, and touches nothing else.
pub proof fn a_login_keeps_one_session(
    s: StateView,
    username: Seq<char>,
    password: Seq<char>,
    token: Seq<char>,
    now: Timestamp,
    other: Seq<char>,
)
    requires
        text::trimmed(username) == "admin"@,
        password == s.password,
        now.valid(),
        now.secs + 24 * 3600 <= 8210266876799,
        other != token,
    ensures
        ({
            let (after, answer) = s.login(username, password, token, now);
            let session = after.sessions[token];
            &&& answer is Ok
            &&& answer->Ok_0.token == token
            &&& answer->Ok_0.role == "admin"@
            &&& answer->Ok_0.expires_at == session.expires_at
            &&& after.sessions.contains_key(token)
            &&& session.username == "admin"@
            &&& session.created_at == now
            &&& session.expires_at.valid()
            &&& session.expires_at.instant() == now.instant() + 24 * 3600 * 1_000_000_000
            &&& after.sessions.contains_key(other) == s.sessions.contains_key(other)
            &&& s.sessions.contains_key(other) ==> after.sessions[other] == s.sessions[other]
            &&& after.rooms == s.rooms && after.channels == s.channels && after.ready == s.ready
            &&& after.password == s.password
        }),
{
    admin::lemma_new_session(now);
}

/// A login with any other credentials is refused and touches nothing.
pub proof fn a_login_with_other_credentials_is_refused(
    s: StateView,
    username: Seq<char>,
    password: Seq<char>,
    token: Seq<char>,
    now: Timestamp,
)
    requires
        text::trimmed(username) != "admin"@ || password != s.password,
    ensures
        s.login(username, password, token, now) == (
            s,
            Err::<LoginView, Refusal>((StatusCode::Unauthorized, "管理员账号或密码错误"@)),
        ),
{
}

/// A token lets its bearer through before the end of its session and at no other time; a session
/// at or past its end is forgotten, and nothing else is touched.
pub proof fn a_token_is_good_until_its_session_ends(
    s: StateView,
    token: Seq<char>,
    now: Timestamp,
    other: Seq<char>,
)
    requires
        now.valid(),
        s.sessions.contains_key(token) ==> s.sessions[token].expires_at.valid(),
        other != token,
    ensures
        ({
            let known = s.sessions.contains_key(token);
            let good = known && now.instant() < s.sessions[token].expires_at.instant();
            let (after, found) = s.validate(token, now);
            &&& found == if good {
                Some(s.sessions[token])
            } else {
                None
            }
            &&& after.sessions.contains_key(token) == good
            &&& good ==> after.sessions[token] == s.sessions[token]
            &&& after.sessions.contains_key(other) == s.sessions.contains_key(other)
            &&& s.sessions.contains_key(other) ==> after.sessions[other] == s.sessions[other]
            &&& after.rooms == s.rooms && after.channels == s.channels && after.ready == s.ready
            &&& after.password == s.password
        }),
{
    if s.sessions.contains_key(token) {
        clock::later_is_greater(s.sessions[token].expires_at, now);
    }
}

/// A request for administrators is let through with a good token, with its session; without a
/// token it is answered 401, with any other 403. It does to the sessions what looking the token
/// up does.
pub proof fn who_is_let_through(s: StateView, token: Option<Seq<char>>, now: Timestamp)
    ensures
        token is None ==> s.authenticate(token, now) == (
            s,
            Err::<SessionView, Refusal>((StatusCode::Unauthorized, "缺少管理员令牌"@)),
        ),
        token is Some ==> {
            let (after, found) = s.validate(token->0, now);
            &&& s.authenticate(token, now).0 == after
            &&& s.authenticate(token, now).1 == if found is Some {
                Ok::<SessionView, Refusal>(found->0)
            } else {
                Err((StatusCode::Forbidden, "管理员令牌无效或已过期"@))
            }
        },
{
}

/// A verification that lets a session through says that it is valid, and which one it is; one
/// that does not says why.
pub proof fn what_a_verification_says(session: SessionView, why: Refusal)
    ensures
        admin::verified(Ok(session)) == Ok::<(bool, SessionView), Refusal>((true, session)),
        admin::verified(Err(why)) == Err::<(bool, SessionView), Refusal>(why),
{
}

/// A room is managed by its administrators, who need a name and no token, and by whoever bears a
/// good token; anyone else is answered 403.
pub proof fn who_may_manage_a_room(
    s: StateView,
    token: Option<Seq<char>>,
    room: RoomView,
    requester: Seq<char>,
    now: Timestamp,
)
    ensures
        ({
            let (after, answer) = s.permit(token, room, requester, now);
            let of_the_room = requester.len() > 0 && exists|i: int|
                0 <= i < room.admins.len() && #[trigger] room.admins[i] == requester;
            let of_the_platform = token is Some && s.validate(token->0, now).1 is Some;
            &&& answer == if of_the_room || of_the_platform {
                Ok::<(), Refusal>(())
            } else {
                Err((StatusCode::Forbidden, "需要房间管理员或平台管理员权限"@))
            }
            &&& after == if of_the_room || token is None {
                s
            } else {
                s.validate(token->0, now).0
            }
        }),
{
}

/// A logout with a good token ends that session and no other. Without a token it is answered
/// 401; with one of no session, or of one that is over, 403.
pub proof fn what_a_logout_does(
    s: StateView,
    token: Option<Seq<char>>,
    now: Timestamp,
    other: Seq<char>,
)
    requires
        now.valid(),
        token is Some && s.sessions.contains_key(token->0)
            ==> s.sessions[token->0].expires_at.valid(),
        token is Some ==> other != token->0,
    ensures
        ({
            let (after, answer) = s.logout(token, now);
            let known = token is Some && s.sessions.contains_key(token->0);
            &&& token is None ==> answer == Err::<bool, Refusal>(
                (StatusCode::Unauthorized, "缺少管理员令牌"@),
            )
            &&& token is Some && !known ==> answer == Err::<bool, Refusal>(
                (StatusCode::Forbidden, "管理员令牌无效"@),
            )
            &&& known ==> answer == if now.instant() < s.sessions[token->0].expires_at.instant() {
                Ok::<bool, Refusal>(true)
            } else {
                Err((StatusCode::Forbidden, "管理员令牌无效或已过期"@))
            }
            &&& token is Some ==> !after.sessions.contains_key(token->0)
            &&& after.sessions.contains_key(other) == s.sessions.contains_key(other)
            &&& s.sessions.contains_key(other) ==> after.sessions[other] == s.sessions[other]
            &&& after.rooms == s.rooms && after.channels == s.channels && after.ready == s.ready
            &&& after.password == s.password
        }),
{
    if token is Some && s.sessions.contains_key(token->0) {
        clock::later_is_greater(s.sessions[token->0].expires_at, now);
    }
}

/// Counting the sessions keeps those that have not ended, as they are, and forgets the others;
/// nothing else is touched.
pub proof fn counting_keeps_the_open_sessions(s: StateView, now: Timestamp, token: Seq<char>)
    requires
        now.valid(),
        s.sessions.contains_key(token) ==> s.sessions[token].expires_at.valid(),
    ensures
        ({
            let after = s.with_live_sessions(now);
            &&& after.sessions.contains_key(token) <==> s.sessions.contains_key(token)
                && now.instant() < s.sessions[token].expires_at.instant()
            &&& after.sessions.contains_key(token) ==> after.sessions[token] == s.sessions[token]
            &&& after.rooms == s.rooms && after.channels == s.channels && after.ready == s.ready
            &&& after.password == s.password
        }),
{
    if s.sessions.contains_key(token) {
        clock::later_is_greater(s.sessions[token].expires_at, now);
    }
}

/// An administrator is told how many rooms there are, how many seats are taken in them and how
/// many sessions are open; anyone else is told why not. Rooms, channels and ready players stay
/// as they are.
pub proof fn what_the_counts_are(
    s: StateView,
    token: Option<Seq<char>>,
    checked_at: Timestamp,
    counted_at: Timestamp,
    stamped_at: Timestamp,
)
    ensures
        ({
            let (after, answer) = s.stats(token, checked_at, counted_at, stamped_at);
            let (seen, passed) = s.authenticate(token, checked_at);
            &&& passed is Err ==> answer == Err::<StatsView, Refusal>(passed->Err_0) && after == seen
            &&& passed is Ok ==> {
                &&& answer is Ok
                &&& answer->Ok_0.timestamp == stamped_at
                &&& answer->Ok_0.room_count == s.rooms.len()
                &&& answer->Ok_0.connected_players == model::seats_taken(s.rooms)
                &&& answer->Ok_0.active_admin_sessions == s.with_live_sessions(
                    counted_at,
                ).sessions.len()
                &&& after == s.with_live_sessions(counted_at)
            }
            &&& after.rooms == s.rooms && after.channels == s.channels && after.ready == s.ready
            &&& after.password == s.password
        }),
{
}

} // verus!
