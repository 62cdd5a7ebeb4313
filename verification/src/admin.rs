//! Administrators: logging in and out, and what only they may ask.
use axum::http::HeaderMap;
use vstd::prelude::*;
use crate::api::{
    self, AdminLoginRequest, AdminLoginResponse, AdminLogoutResponse, AdminVerifyResponse,
    ApiError, HealthResponse, Refusal, StatsResponse, StatusCode,
};
use crate::clock::{self, Timestamp};
use crate::headers;
use crate::ids;
use crate::model::{self, SessionView, StateView};
use crate::room::{Room, RoomView};
use crate::state::{AdminSession, AppState};
use crate::text;

verus! {

/// What a login answers: the token, its role, and until when it is good.
pub struct LoginView {
    pub token: Seq<char>,
    pub role: Seq<char>,
    pub expires_at: Timestamp,
}

/// What the counts of the server are.
pub struct StatsView {
    pub timestamp: Timestamp,
    pub room_count: nat,
    pub connected_players: nat,
    pub active_admin_sessions: nat,
}

/// A session that begins at that time ends at a time that can be represented.
pub open spec fn session_fits(now: Timestamp) -> bool {
    now.secs + model::ADMIN_SESSION_HOURS * 3600 <= clock::MAX_SECS
}

/// The administrator's session that begins at that time.
pub open spec fn new_session(now: Timestamp) -> SessionView {
    SessionView {
        username: model::ADMIN_USERNAME@,
        created_at: now,
        expires_at: now.hours_later(model::ADMIN_SESSION_HOURS as int),
    }
}

impl StateView {
    /// Whether these credentials are the administrator's.
    pub open spec fn knows(self, username: Seq<char>, password: Seq<char>) -> bool {
        text::trimmed(username) == model::ADMIN_USERNAME@ && password == self.password
    }

    /// A login at that time, in which that token is given out.
    pub open spec fn login(
        self,
        username: Seq<char>,
        password: Seq<char>,
        token: Seq<char>,
        now: Timestamp,
    ) -> (StateView, Result<LoginView, Refusal>) {
        if self.knows(username, password) {
            let session = new_session(now);
            (
                self.with_session(token, session),
                Ok(LoginView { token, role: api::ADMIN_ROLE@, expires_at: session.expires_at }),
            )
        } else {
            (self, Err(api::wrong_credentials()))
        }
    }

    /// The session that a token stands for at that time. A session that is over is forgotten.
    pub open spec fn validate(self, token: Seq<char>, now: Timestamp) -> (
        StateView,
        Option<SessionView>,
    ) {
        if !self.sessions.contains_key(token) {
            (self, None)
        } else if self.sessions[token].live(now) {
            (self, Some(self.sessions[token]))
        } else {
            (self.without_session(token), None)
        }
    }

    /// Whether a request that only an administrator may make is let through at that time.
    pub open spec fn authenticate(self, token: Option<Seq<char>>, now: Timestamp) -> (
        StateView,
        Result<SessionView, Refusal>,
    ) {
        match token {
            Some(t) => {
                let (after, session) = self.validate(t, now);
                match session {
                    Some(session) => (after, Ok(session)),
                    None => (after, Err(api::dead_token())),
                }
            },
            None => (self, Err(api::missing_token())),
        }
    }

    /// Whether `requester`, or whoever the token stands for at that time, may manage the room.
    pub open spec fn permit(
        self,
        token: Option<Seq<char>>,
        room: RoomView,
        requester: Seq<char>,
        now: Timestamp,
    ) -> (StateView, Result<(), Refusal>) {
        if requester.len() > 0 && room.admins.contains(requester) {
            (self, Ok(()))
        } else {
            match token {
                Some(t) => {
                    let (after, session) = self.validate(t, now);
                    match session {
                        Some(_) => (after, Ok(())),
                        None => (after, Err(api::not_permitted())),
                    }
                },
                None => (self, Err(api::not_permitted())),
            }
        }
    }

    /// A logout at that time. It takes the token of an open session; a session that is over is
    /// forgotten.
    pub open spec fn logout(self, token: Option<Seq<char>>, now: Timestamp) -> (
        StateView,
        Result<bool, Refusal>,
    ) {
        match token {
            Some(t) => if !self.sessions.contains_key(t) {
                (self, Err(api::unknown_token()))
            } else if self.sessions[t].live(now) {
                (self.without_session(t), Ok(true))
            } else {
                (self.without_session(t), Err(api::dead_token()))
            },
            None => (self, Err(api::missing_token())),
        }
    }

    /// The counts, for an administrator: let through at the first of these times, with the
    /// sessions counted that are open at the second, and dated with the third.
    pub open spec fn stats(
        self,
        token: Option<Seq<char>>,
        checked_at: Timestamp,
        counted_at: Timestamp,
        stamped_at: Timestamp,
    ) -> (StateView, Result<StatsView, Refusal>) {
        let (seen, passed) = self.authenticate(token, checked_at);
        match passed {
            Ok(_) => {
                let after = seen.with_live_sessions(counted_at);
                (
                    after,
                    Ok(
                        StatsView {
                            timestamp: stamped_at,
                            room_count: seen.rooms.len(),
                            connected_players: model::seats_taken(seen.rooms),
                            active_admin_sessions: after.sessions.len(),
                        },
                    ),
                )
            },
            Err(e) => (seen, Err(e)),
        }
    }
}

/// What a login says.
pub open spec fn login_answer(r: Result<AdminLoginResponse, (StatusCode, ApiError)>) -> Result<
    LoginView,
    Refusal,
> {
    match r {
        Ok(a) => Ok(
            LoginView { token: a.token@, role: a.role@, expires_at: a.expires_at },
        ),
        Err(e) => Err(api::refusal(e)),
    }
}

/// What the answer to a verification says of the session.
pub open spec fn verify_answer(r: Result<AdminVerifyResponse, (StatusCode, ApiError)>) -> Result<
    (bool, SessionView),
    Refusal,
> {
    match r {
        Ok(a) => Ok(
            (
                a.valid,
                SessionView {
                    username: a.username@,
                    created_at: a.created_at,
                    expires_at: a.expires_at,
                },
            ),
        ),
        Err(e) => Err(api::refusal(e)),
    }
}

/// The answer to a verification that let a session through.
pub open spec fn verified(r: Result<SessionView, Refusal>) -> Result<(bool, SessionView), Refusal> {
    match r {
        Ok(session) => Ok((true, session)),
        Err(e) => Err(e),
    }
}

/// What the answer to a logout says.
pub open spec fn logout_answer(r: Result<AdminLogoutResponse, (StatusCode, ApiError)>) -> Result<
    bool,
    Refusal,
> {
    match r {
        Ok(a) => Ok(a.ok),
        Err(e) => Err(api::refusal(e)),
    }
}

/// What an answer with the counts says.
pub open spec fn stats_answer(r: Result<StatsResponse, (StatusCode, ApiError)>) -> Result<
    StatsView,
    Refusal,
> {
    match r {
        Ok(a) => Ok(
            StatsView {
                timestamp: a.timestamp,
                room_count: a.room_count as nat,
                connected_players: a.connected_players as nat,
                active_admin_sessions: a.active_admin_sessions as nat,
            },
        ),
        Err(e) => Err(api::refusal(e)),
    }
}

/// The session that was found.
pub open spec fn session_of(r: Option<AdminSession>) -> Option<SessionView> {
    match r {
        Some(session) => Some(session@),
        None => None,
    }
}

/// The session that was let through.
pub open spec fn session_answer(r: Result<AdminSession, (StatusCode, ApiError)>) -> Result<
    SessionView,
    Refusal,
> {
    match r {
        Ok(session) => Ok(session@),
        Err(e) => Err(api::refusal(e)),
    }
}

/// What was said of a permission.
pub open spec fn permission(r: Result<(), (StatusCode, ApiError)>) -> Result<(), Refusal> {
    match r {
        Ok(_) => Ok(()),
        Err(e) => Err(api::refusal(e)),
    }
}

/// A new session lasts as long as every session does.
pub proof fn lemma_new_session(now: Timestamp)
    requires
        now.valid(),
        session_fits(now),
    ensures
        new_session(now).inv(),
{
}

impl AppState {
    /// That the server is up, dated with that time.
    pub fn health_at(&self, now: Timestamp) -> (r: HealthResponse)
        requires
            self.wf(),
        ensures
            r.status@ == "ok"@,
            r.timestamp == now,
            r.room_count == self@.rooms.len(),
    {
        HealthResponse { status: api::HEALTHY, timestamp: now, room_count: self.room_count() }
    }

    /// That the server is up, dated with the current time.
    pub fn health(&self) -> (r: HealthResponse)
        requires
            self.wf(),
        ensures
            r.status@ == "ok"@,
            r.timestamp.valid(),
            r.room_count == self@.rooms.len(),
    {
        self.health_at(clock::utc_now())
    }

    /// Whether these credentials are the administrator's.
    pub fn knows_admin(&self, req: &AdminLoginRequest) -> (r: bool)
        ensures
            r == self@.knows(req.username@, req.password@),
    {
        let name_ok = text::same_text(req.username.as_str().trim(), model::ADMIN_USERNAME);
        let pass_ok = self.is_password(&req.password);
        name_ok && pass_ok
    }

    /// Logs the administrator in at that time, with that token, if the credentials are right.
    pub fn admin_login_with(
        &mut self,
        req: &AdminLoginRequest,
        token: String,
        now: Timestamp,
    ) -> (r: Result<AdminLoginResponse, (StatusCode, ApiError)>)
        requires
            old(self).wf(),
            now.valid(),
            session_fits(now),
        ensures
            final(self).wf(),
            (final(self)@, login_answer(r)) == old(self)@.login(
                req.username@,
                req.password@,
                token@,
                now,
            ),
    {
        if !self.knows_admin(req) {
            return Err(api::error_json(StatusCode::Unauthorized, "管理员账号或密码错误"));
        }
        let expires_at = clock::plus_hours(now, model::ADMIN_SESSION_HOURS);
        let session = AdminSession {
            username: text::trim_text(req.username.as_str()),
            created_at: now,
            expires_at,
        };
        proof {
            lemma_new_session(now);
            assert(session@ == new_session(now));
            model::lemma_session_put(self@, token@, session@);
        }
        self.put_session(token.clone(), session);
        Ok(AdminLoginResponse { token, role: api::ADMIN_ROLE, expires_at })
    }

    /// Logs the administrator in at that time, with that token, if the credentials are right.
    /// `None`, with nothing changed, where they are and the session would end at a time that
    /// cannot be represented, and only there.
    pub fn admin_login_at(
        &mut self,
        req: &AdminLoginRequest,
        token: String,
        now: Timestamp,
    ) -> (r: Option<Result<AdminLoginResponse, (StatusCode, ApiError)>>)
        requires
            old(self).wf(),
            now.valid(),
        ensures
            final(self).wf(),
            r is None <==> old(self)@.knows(req.username@, req.password@) && !session_fits(now),
            match r {
                Some(answer) => (final(self)@, login_answer(answer)) == old(self)@.login(
                    req.username@,
                    req.password@,
                    token@,
                    now,
                ),
                None => final(self)@ == old(self)@,
            },
    {
        if !self.knows_admin(req) {
            return Some(Err(api::error_json(StatusCode::Unauthorized, "管理员账号或密码错误")));
        }
        if now.secs > clock::MAX_SECS - model::ADMIN_SESSION_HOURS * 3600 {
            return None;
        }
        Some(self.admin_login_with(req, token, now))
    }

    /// Logs the administrator in now, with a token drawn at random, if the credentials are
    /// right. `None`, with nothing changed, where they are and the session would end at a time
    /// that cannot be represented, and only there.
    pub fn admin_login(&mut self, req: &AdminLoginRequest) -> (r: Option<
        Result<AdminLoginResponse, (StatusCode, ApiError)>,
    >)
        requires
            old(self).wf(),
        ensures
            final(self).wf(),
            exists|token: Seq<char>, now: Timestamp|
                {
                    let (after, answer) = #[trigger] old(self)@.login(
                        req.username@,
                        req.password@,
                        token,
                        now,
                    );
                    &&& ids::is_uuid_text(token)
                    &&& now.valid()
                    &&& r is None <==> old(self)@.knows(req.username@, req.password@)
                        && !session_fits(now)
                    &&& match r {
                        Some(given) => final(self)@ == after && login_answer(given) == answer,
                        None => final(self)@ == old(self)@,
                    }
                },
    {
        let token = ids::new_id();
        let now = clock::utc_now();
        self.admin_login_at(req, token, now)
    }

    /// The session that a token stands for at that time. A session that is over is forgotten.
    pub fn validate_admin_token_at(&mut self, token: &String, now: &Timestamp) -> (r: Option<
        AdminSession,
    >)
        requires
            old(self).wf(),
        ensures
            final(self).wf(),
            (final(self)@, session_of(r)) == old(self)@.validate(token@, *now),
    {
        match self.find_session(token) {
            Some(session) => {
                if session.expires_at.is_after(now) {
                    return Some(session.clone());
                }
            },
            None => {
                return None;
            },
        }
        proof {
            model::lemma_session_dropped(self@, token@);
        }
        self.drop_session(token);
        None
    }

    /// The session that a token stands for now. A session that is over is forgotten.
    pub fn validate_admin_token(&mut self, token: &String) -> (r: Option<AdminSession>)
        requires
            old(self).wf(),
        ensures
            final(self).wf(),
            exists|now: Timestamp|
                now.valid() && (final(self)@, session_of(r)) == #[trigger] old(self)@.validate(
                    token@,
                    now,
                ),
    {
        let now = clock::utc_now();
        self.validate_admin_token_at(token, &now)
    }

    /// Lets a request through at that time, if it carries the token of an open session.
    pub fn ensure_admin_at(&mut self, headers: &HeaderMap, now: &Timestamp) -> (r: Result<
        AdminSession,
        (StatusCode, ApiError),
    >)
        requires
            old(self).wf(),
        ensures
            final(self).wf(),
            (final(self)@, session_answer(r)) == old(self)@.authenticate(
                headers::admin_token(*headers),
                *now,
            ),
    {
        match headers::extract_admin_token(headers) {
            Some(token) => match self.validate_admin_token_at(&token, now) {
                Some(session) => Ok(session),
                None => Err(api::error_json(StatusCode::Forbidden, "管理员令牌无效或已过期")),
            },
            None => Err(api::error_json(StatusCode::Unauthorized, "缺少管理员令牌")),
        }
    }

    /// Lets a request through now, if it carries the token of an open session.
    pub fn ensure_admin(&mut self, headers: &HeaderMap) -> (r: Result<
        AdminSession,
        (StatusCode, ApiError),
    >)
        requires
            old(self).wf(),
        ensures
            final(self).wf(),
            exists|now: Timestamp|
                now.valid() && (final(self)@, session_answer(r)) == #[trigger] old(self)@.authenticate(
                    headers::admin_token(*headers),
                    now,
                ),
    {
        let now = clock::utc_now();
        self.ensure_admin_at(headers, &now)
    }

    /// Lets `requester` manage the room if they are an administrator of it, or if the request
    /// carries the token of a session that is open at that time.
    pub fn ensure_room_admin_or_platform_admin_at(
        &mut self,
        headers: &HeaderMap,
        room: &Room,
        requester: &String,
        now: &Timestamp,
    ) -> (r: Result<(), (StatusCode, ApiError)>)
        requires
            old(self).wf(),
        ensures
            final(self).wf(),
            (final(self)@, permission(r)) == old(self)@.permit(
                headers::admin_token(*headers),
                room@,
                requester@,
                *now,
            ),
    {
        if room.is_room_admin(requester) {
            return Ok(());
        }
        if let Some(token) = headers::extract_admin_token(headers) {
            if self.validate_admin_token_at(&token, now).is_some() {
                return Ok(());
            }
        }
        Err(api::error_json(StatusCode::Forbidden, "需要房间管理员或平台管理员权限"))
    }

    /// Lets `requester` manage the room if they are an administrator of it, or if the request
    /// carries the token of a session that is open now.
    pub fn ensure_room_admin_or_platform_admin(
        &mut self,
        headers: &HeaderMap,
        room: &Room,
        requester: &String,
    ) -> (r: Result<(), (StatusCode, ApiError)>)
        requires
            old(self).wf(),
        ensures
            final(self).wf(),
            exists|now: Timestamp|
                now.valid() && (final(self)@, permission(r)) == #[trigger] old(self)@.permit(
                    headers::admin_token(*headers),
                    room@,
                    requester@,
                    now,
                ),
    {
        let now = clock::utc_now();
        self.ensure_room_admin_or_platform_admin_at(headers, room, requester, &now)
    }

    /// The session that the request's token stands for at that time.
    pub fn admin_verify_at(&mut self, headers: &HeaderMap, now: &Timestamp) -> (r: Result<
        AdminVerifyResponse,
        (StatusCode, ApiError),
    >)
        requires
            old(self).wf(),
        ensures
            final(self).wf(),
            final(self)@ == old(self)@.authenticate(headers::admin_token(*headers), *now).0,
            verify_answer(r) == verified(
                old(self)@.authenticate(headers::admin_token(*headers), *now).1,
            ),
    {
        match self.ensure_admin_at(headers, now) {
            Ok(session) => Ok(
                AdminVerifyResponse {
                    valid: true,
                    username: session.username,
                    created_at: session.created_at,
                    expires_at: session.expires_at,
                },
            ),
            Err(e) => Err(e),
        }
    }

    /// The session that the request's token stands for now.
    pub fn admin_verify(&mut self, headers: &HeaderMap) -> (r: Result<
        AdminVerifyResponse,
        (StatusCode, ApiError),
    >)
        requires
            old(self).wf(),
        ensures
            final(self).wf(),
            exists|now: Timestamp|
                {
                    let (after, passed) = #[trigger] old(self)@.authenticate(
                        headers::admin_token(*headers),
                        now,
                    );
                    now.valid() && final(self)@ == after && verify_answer(r) == verified(passed)
                },
    {
        let now = clock::utc_now();
        self.admin_verify_at(headers, &now)
    }

    /// Ends the session that the request's token stands for, if it is open at that time. A
    /// session that is over is forgotten, and the request is refused.
    pub fn admin_logout_at(&mut self, headers: &HeaderMap, now: &Timestamp) -> (r: Result<
        AdminLogoutResponse,
        (StatusCode, ApiError),
    >)
        requires
            old(self).wf(),
        ensures
            final(self).wf(),
            (final(self)@, logout_answer(r)) == old(self)@.logout(
                headers::admin_token(*headers),
                *now,
            ),
    {
        let token = match headers::extract_admin_token(headers) {
            Some(token) => token,
            None => {
                return Err(api::error_json(StatusCode::Unauthorized, "缺少管理员令牌"));
            },
        };
        let live = match self.find_session(&token) {
            Some(session) => session.expires_at.is_after(now),
            None => {
                return Err(api::error_json(StatusCode::Forbidden, "管理员令牌无效"));
            },
        };
        proof {
            model::lemma_session_dropped(self@, token@);
        }
        self.drop_session(&token);
        if live {
            Ok(AdminLogoutResponse { ok: true })
        } else {
            Err(api::error_json(StatusCode::Forbidden, "管理员令牌无效或已过期"))
        }
    }

    /// Ends the session that the request's token stands for, if it is open now. A session that
    /// is over is forgotten, and the request is refused.
    pub fn admin_logout(&mut self, headers: &HeaderMap) -> (r: Result<
        AdminLogoutResponse,
        (StatusCode, ApiError),
    >)
        requires
            old(self).wf(),
        ensures
            final(self).wf(),
            exists|now: Timestamp|
                now.valid() && (final(self)@, logout_answer(r)) == #[trigger] old(self)@.logout(
                    headers::admin_token(*headers),
                    now,
                ),
    {
        let now = clock::utc_now();
        self.admin_logout_at(headers, &now)
    }

    /// Forgets the sessions that are over at that time, and counts the others.
    pub fn count_active_admin_sessions_at(&mut self, now: &Timestamp) -> (r: usize)
        requires
            old(self).wf(),
        ensures
            final(self).wf(),
            final(self)@ == old(self)@.with_live_sessions(*now),
            r == final(self)@.sessions.len(),
    {
        proof {
            model::lemma_sessions_pruned(self@, *now);
        }
        self.retain_live_sessions(now);
        self.session_count()
    }

    /// Forgets the sessions that are over now, and counts the others.
    pub fn count_active_admin_sessions(&mut self) -> (r: usize)
        requires
            old(self).wf(),
        ensures
            final(self).wf(),
            exists|now: Timestamp|
                now.valid() && final(self)@ == #[trigger] old(self)@.with_live_sessions(now),
            r == final(self)@.sessions.len(),
    {
        let now = clock::utc_now();
        self.count_active_admin_sessions_at(&now)
    }

    /// The counts, for an administrator, at those times.
    pub fn get_stats_at(
        &mut self,
        headers: &HeaderMap,
        checked_at: &Timestamp,
        counted_at: &Timestamp,
        stamped_at: Timestamp,
    ) -> (r: Result<StatsResponse, (StatusCode, ApiError)>)
        requires
            old(self).wf(),
            model::seats_taken(old(self)@.rooms) <= usize::MAX,
        ensures
            final(self).wf(),
            (final(self)@, stats_answer(r)) == old(self)@.stats(
                headers::admin_token(*headers),
                *checked_at,
                *counted_at,
                stamped_at,
            ),
    {
        match self.ensure_admin_at(headers, checked_at) {
            Ok(_) => {
                let room_count = self.room_count();
                let connected_players = self.connected_players();
                let active_admin_sessions = self.count_active_admin_sessions_at(counted_at);
                Ok(
                    StatsResponse {
                        timestamp: stamped_at,
                        room_count,
                        connected_players,
                        active_admin_sessions,
                    },
                )
            },
            Err(e) => Err(e),
        }
    }

    /// The counts, for an administrator, now.
    pub fn get_stats(&mut self, headers: &HeaderMap) -> (r: Result<
        StatsResponse,
        (StatusCode, ApiError),
    >)
        requires
            old(self).wf(),
            model::seats_taken(old(self)@.rooms) <= usize::MAX,
        ensures
            final(self).wf(),
            exists|checked_at: Timestamp, counted_at: Timestamp, stamped_at: Timestamp|
                {
                    &&& checked_at.valid() && counted_at.valid() && stamped_at.valid()
                    &&& (final(self)@, stats_answer(r)) == #[trigger] old(self)@.stats(
                        headers::admin_token(*headers),
                        checked_at,
                        counted_at,
                        stamped_at,
                    )
                },
    {
        let checked_at = clock::utc_now();
        let counted_at = clock::utc_now();
        let stamped_at = clock::utc_now();
        self.get_stats_at(headers, &checked_at, &counted_at, stamped_at)
    }
}

} // verus!
