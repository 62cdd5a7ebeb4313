//! Requests, answers and refusals.
use vstd::prelude::*;
use crate::clock::Timestamp;
use crate::room::{Room, RoomView};

verus! {

/// The HTTP status of an answer.
#[derive(Clone, Copy, Debug, PartialEq, Eq, Structural)]
pub enum StatusCode {
    Created,
    NoContent,
    BadRequest,
    Unauthorized,
    Forbidden,
    NotFound,
    Conflict,
}

impl StatusCode {
    /// The number of the status.
    pub open spec fn code(self) -> u16 {
        match self {
            StatusCode::Created => 201,
            StatusCode::NoContent => 204,
            StatusCode::BadRequest => 400,
            StatusCode::Unauthorized => 401,
            StatusCode::Forbidden => 403,
            StatusCode::NotFound => 404,
            StatusCode::Conflict => 409,
        }
    }

    /// The number of the status.
    pub fn as_u16(&self) -> (r: u16)
        ensures
            r == self.code(),
    {
        match self {
            StatusCode::Created => 201,
            StatusCode::NoContent => 204,
            StatusCode::BadRequest => 400,
            StatusCode::Unauthorized => 401,
            StatusCode::Forbidden => 403,
            StatusCode::NotFound => 404,
            StatusCode::Conflict => 409,
        }
    }
}

/// The body of a refusal.
#[derive(Debug)]
pub struct ApiError {
    pub message: String,
}

/// A refusal: its status and its message.
pub type Refusal = (StatusCode, Seq<char>);

/// What a refusal says.
pub open spec fn refusal(e: (StatusCode, ApiError)) -> Refusal {
    (e.0, e.1.message@)
}

/// A refusal with that status and message.
pub fn error_json(status: StatusCode, msg: &str) -> (r: (StatusCode, ApiError))
    ensures
        refusal(r) == (status, msg@),
{
    (status, ApiError { message: msg.to_string() })
}

/// The credentials do not match.
pub open spec fn wrong_credentials() -> Refusal {
    (StatusCode::Unauthorized, "管理员账号或密码错误"@)
}

/// The request carries no administrator token.
pub open spec fn missing_token() -> Refusal {
    (StatusCode::Unauthorized, "缺少管理员令牌"@)
}

/// The administrator token stands for no session that is still open.
pub open spec fn dead_token() -> Refusal {
    (StatusCode::Forbidden, "管理员令牌无效或已过期"@)
}

/// The administrator token stands for no session.
pub open spec fn unknown_token() -> Refusal {
    (StatusCode::Forbidden, "管理员令牌无效"@)
}

/// There is no such room.
pub open spec fn no_such_room() -> Refusal {
    (StatusCode::NotFound, "房间不存在"@)
}

/// A room needs a name.
pub open spec fn blank_room_name() -> Refusal {
    (StatusCode::BadRequest, "房间名不能为空"@)
}

/// A room needs an owner.
pub open spec fn blank_owner() -> Refusal {
    (StatusCode::BadRequest, "房主不能为空"@)
}

/// A player needs a name.
pub open spec fn blank_player() -> Refusal {
    (StatusCode::BadRequest, "玩家名不能为空"@)
}

/// The player to be removed needs a name.
pub open spec fn blank_target() -> Refusal {
    (StatusCode::BadRequest, "目标玩家不能为空"@)
}

/// Every seat of the room is taken.
pub open spec fn room_full() -> Refusal {
    (StatusCode::Conflict, "房间已满"@)
}

/// The player to be removed does not sit in the room.
pub open spec fn absent_target() -> Refusal {
    (StatusCode::NotFound, "目标玩家不在房间中"@)
}

/// Only an administrator, of the room or of the platform, may do this.
pub open spec fn not_permitted() -> Refusal {
    (StatusCode::Forbidden, "需要房间管理员或平台管理员权限"@)
}

/// The credentials of an administrator.
pub struct AdminLoginRequest {
    pub username: String,
    pub password: String,
}

/// The role that an administrator token stands for.
pub const ADMIN_ROLE: &'static str = "admin";

/// A token, and until when it is good.
#[derive(Debug)]
pub struct AdminLoginResponse {
    pub token: String,
    pub role: &'static str,
    pub expires_at: Timestamp,
}

/// The session that a token stands for.
#[derive(Debug)]
pub struct AdminVerifyResponse {
    pub valid: bool,
    pub username: String,
    pub created_at: Timestamp,
    pub expires_at: Timestamp,
}

/// The answer to a logout.
#[derive(Debug)]
pub struct AdminLogoutResponse {
    pub ok: bool,
}

/// What a new room is to be.
pub struct CreateRoomRequest {
    pub name: String,
    pub owner: String,
    pub max_players: Option<usize>,
}

/// A player who joins or leaves.
pub struct PlayerActionRequest {
    pub player: String,
}

/// A player to be removed, and the player who asks for it.
pub struct KickPlayerRequest {
    pub requester: Option<String>,
    pub target: String,
}

/// The status that a healthy server reports.
pub const HEALTHY: &'static str = "ok";

/// That the server is up, and how many rooms there are.
#[derive(Debug)]
pub struct HealthResponse {
    pub status: &'static str,
    pub timestamp: Timestamp,
    pub room_count: usize,
}

/// How many rooms, seated players and open administrator sessions there are.
#[derive(Debug)]
pub struct StatsResponse {
    pub timestamp: Timestamp,
    pub room_count: usize,
    pub connected_players: usize,
    pub active_admin_sessions: usize,
}

/// What an answer that carries a room says.
pub open spec fn room_answer(r: Result<Room, (StatusCode, ApiError)>) -> Result<RoomView, Refusal> {
    match r {
        Ok(room) => Ok(room@),
        Err(e) => Err(refusal(e)),
    }
}

} // verus!
