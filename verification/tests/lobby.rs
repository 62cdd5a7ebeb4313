use axum::http::{HeaderMap, HeaderValue};
use jboy_server::api::{
    AdminLoginRequest, ApiError, CreateRoomRequest, KickPlayerRequest, PlayerActionRequest,
    StatusCode,
};
use jboy_server::clock::Timestamp;
use jboy_server::lobby::clamp_room_size;
use jboy_server::room::Room;
use jboy_server::state::{create_state, AppState};

const NOON: Timestamp = Timestamp { secs: 1_700_000_000, nanos: 0 };

fn names(list: &[&str]) -> Vec<String> {
    list.iter().map(|s| s.to_string()).collect()
}

fn admin() -> HeaderMap {
    let mut headers = HeaderMap::new();
    headers.insert("x-admin-token", HeaderValue::from_static("t1"));
    headers
}

fn logged_in() -> AppState {
    let mut app = create_state("secret".to_string());
    let req = AdminLoginRequest { username: "admin".to_string(), password: "secret".to_string() };
    app.admin_login_with(&req, "t1".to_string(), NOON).unwrap();
    app
}

fn request(name: &str, owner: &str, max_players: Option<usize>) -> CreateRoomRequest {
    CreateRoomRequest { name: name.to_string(), owner: owner.to_string(), max_players }
}

fn make(app: &mut AppState, id: &str, owner: &str, size: Option<usize>, secs: i64) -> Room {
    let tx = tokio::sync::broadcast::channel(128).0;
    let made_at = Timestamp { secs, nanos: 0 };
    app.create_room_with(&admin(), &request(id, owner, size), &NOON, id.to_string(), made_at, tx)
        .unwrap()
        .1
}

fn player(name: &str) -> PlayerActionRequest {
    PlayerActionRequest { player: name.to_string() }
}

fn kick(requester: Option<&str>, target: &str) -> KickPlayerRequest {
    KickPlayerRequest { requester: requester.map(|s| s.to_string()), target: target.to_string() }
}

fn refused(e: (StatusCode, ApiError)) -> (u16, String) {
    (e.0.as_u16(), e.1.message)
}

fn id(s: &str) -> String {
    s.to_string()
}

#[test]
fn a_made_room_is_found() {
    let mut app = logged_in();
    let tx = tokio::sync::broadcast::channel(128).0;
    let (status, room) = app
        .create_room_with(
            &admin(),
            &request("  den ", " alice\n", Some(3)),
            &NOON,
            id("r1"),
            NOON,
            tx,
        )
        .unwrap();
    assert_eq!(status, StatusCode::Created);
    assert_eq!(status.as_u16(), 201);
    for room in [room, app.get_room(&id("r1")).unwrap()] {
        assert_eq!(room.id, "r1");
        assert_eq!(room.name, "den");
        assert_eq!(room.owner, "alice");
        assert_eq!(room.admins, names(&["alice"]));
        assert_eq!(room.players, names(&["alice"]));
        assert_eq!(room.max_players, 3);
        assert_eq!(room.created_at, NOON);
    }
    assert_eq!(app.room_count(), 1);
}

#[test]
fn room_sizes_are_clamped() {
    assert_eq!(clamp_room_size(None), 2);
    assert_eq!(clamp_room_size(Some(0)), 2);
    assert_eq!(clamp_room_size(Some(1)), 2);
    assert_eq!(clamp_room_size(Some(2)), 2);
    assert_eq!(clamp_room_size(Some(5)), 5);
    assert_eq!(clamp_room_size(Some(8)), 8);
    assert_eq!(clamp_room_size(Some(9)), 8);
    assert_eq!(clamp_room_size(Some(usize::MAX)), 8);
}

#[test]
fn making_a_room_needs_names() {
    let mut app = logged_in();
    let e = app.create_room(&HeaderMap::new(), &request("", "", None)).unwrap_err();
    assert_eq!(refused(e), (401, "缺少管理员令牌".to_string()));
    for (name, owner, message) in [
        (" \t", "alice", "房间名不能为空"),
        ("", "", "房间名不能为空"),
        ("den", " ", "房主不能为空"),
    ] {
        let tx = tokio::sync::broadcast::channel(128).0;
        let e = app
            .create_room_with(&admin(), &request(name, owner, None), &NOON, id("r1"), NOON, tx)
            .unwrap_err();
        assert_eq!(refused(e), (400, message.to_string()));
    }
    assert_eq!(app.room_count(), 0);
}

#[test]
fn made_rooms_get_ids_drawn_at_random() {
    let mut app = create_state("secret".to_string());
    let req = AdminLoginRequest { username: "admin".to_string(), password: "secret".to_string() };
    let token = app.admin_login(&req).unwrap().unwrap().token;
    let mut headers = HeaderMap::new();
    headers.insert("x-admin-token", HeaderValue::from_str(&token).unwrap());
    let a = app.create_room(&headers, &request("a", "alice", None)).unwrap().1;
    let b = app.create_room(&headers, &request("b", "bob", Some(20))).unwrap().1;
    assert_ne!(a.id, b.id);
    assert_eq!(a.id.len(), 36);
    assert_eq!(a.max_players, 2);
    assert_eq!(b.max_players, 8);
    assert_eq!(app.get_room(&b.id).unwrap().owner, "bob");
    assert_eq!(app.delete_room(&headers, &a.id).unwrap(), StatusCode::NoContent);
    assert_eq!(app.room_count(), 1);
}

#[test]
fn a_deleted_room_is_gone() {
    let mut app = logged_in();
    make(&mut app, "r1", "alice", None, 5);
    let e = app.delete_room_at(&HeaderMap::new(), &id("r1"), &NOON).unwrap_err();
    assert_eq!(refused(e), (401, "缺少管理员令牌".to_string()));
    assert!(app.get_room(&id("r1")).is_ok());
    let status = app.delete_room_at(&admin(), &id("r1"), &NOON).unwrap();
    assert_eq!(status.as_u16(), 204);
    let e = app.get_room(&id("r1")).unwrap_err();
    assert_eq!(refused(e), (404, "房间不存在".to_string()));
    let e = app.delete_room_at(&admin(), &id("r1"), &NOON).unwrap_err();
    assert_eq!(refused(e), (404, "房间不存在".to_string()));
    assert!(app.build_link_sync_payload(&id("r1")).is_none());
}

#[test]
fn rooms_are_listed_by_age() {
    let mut app = logged_in();
    assert!(app.list_rooms().is_empty());
    make(&mut app, "c", "alice", None, 30);
    make(&mut app, "a", "alice", None, 10);
    make(&mut app, "d", "alice", None, 40);
    make(&mut app, "b", "alice", None, 20);
    let listed: Vec<String> = app.list_rooms().into_iter().map(|r| r.id).collect();
    assert_eq!(listed, names(&["a", "b", "c", "d"]));
}

#[test]
fn joining_is_idempotent_and_trims() {
    let mut app = logged_in();
    make(&mut app, "r1", "alice", Some(3), 5);
    let room = app.join_room(&id("r1"), &player("  bob ")).unwrap();
    assert_eq!(room.players, names(&["alice", "bob"]));
    let room = app.join_room(&id("r1"), &player("bob")).unwrap();
    assert_eq!(room.players, names(&["alice", "bob"]));
    assert_eq!(room.owner, "alice");
    assert_eq!(room.admins, names(&["alice"]));
}

#[test]
fn made_rooms_do_not_hear_each_other() {
    let mut app = create_state("secret".to_string());
    let req = AdminLoginRequest { username: "admin".to_string(), password: "secret".to_string() };
    let token = app.admin_login(&req).unwrap().unwrap().token;
    let mut headers = HeaderMap::new();
    headers.insert("x-admin-token", HeaderValue::from_str(&token).unwrap());
    let mut channels = Vec::new();
    for name in ["a", "b"] {
        let room = app.create_room(&headers, &request(name, "alice", None)).unwrap().1;
        let link = app.ws_room(&room.id, &id("alice")).unwrap();
        channels.push(app.connect(&link).tx);
    }
    assert!(!channels[0].same_channel(&channels[1]));
    let mut rx = channels[1].subscribe();
    let _ = channels[0].send("hi".to_string());
    assert!(rx.try_recv().is_err());
    channels[1].send("ho".to_string()).unwrap();
    assert_eq!(rx.try_recv().unwrap(), "ho");
}

#[test]
fn joining_is_refused() {
    let mut app = logged_in();
    make(&mut app, "r1", "alice", Some(2), 5);
    app.join_room(&id("r1"), &player("bob")).unwrap();
    let e = app.join_room(&id("r1"), &player("carol")).unwrap_err();
    assert_eq!(refused(e), (409, "房间已满".to_string()));
    assert!(app.join_room(&id("r1"), &player("bob")).is_ok());
    let e = app.join_room(&id("r1"), &player(" ")).unwrap_err();
    assert_eq!(refused(e), (400, "玩家名不能为空".to_string()));
    let e = app.join_room(&id("r2"), &player("bob")).unwrap_err();
    assert_eq!(refused(e), (404, "房间不存在".to_string()));
    assert_eq!(app.get_room(&id("r1")).unwrap().players, names(&["alice", "bob"]));
}

#[test]
fn leaving_undoes_joining() {
    let mut app = logged_in();
    make(&mut app, "r1", "alice", Some(4), 5);
    app.join_room(&id("r1"), &player("bob")).unwrap();
    app.join_room(&id("r1"), &player("carol")).unwrap();
    let room = app.leave_room(&id("r1"), &player(" carol ")).unwrap();
    assert_eq!(room.players, names(&["alice", "bob"]));
    assert_eq!(room.owner, "alice");
    assert_eq!(room.admins, names(&["alice"]));
}

#[test]
fn a_stranger_can_leave() {
    let mut app = logged_in();
    make(&mut app, "r1", "alice", Some(4), 5);
    let room = app.leave_room(&id("r1"), &player("bob")).unwrap();
    assert_eq!(room.players, names(&["alice"]));
    let e = app.leave_room(&id("r2"), &player("bob")).unwrap_err();
    assert_eq!(refused(e), (404, "房间不存在".to_string()));
    let e = app.leave_room(&id("r1"), &player("\t")).unwrap_err();
    assert_eq!(refused(e), (400, "玩家名不能为空".to_string()));
}

#[test]
fn the_first_of_the_rest_takes_over() {
    let mut app = logged_in();
    make(&mut app, "r1", "alice", Some(4), 5);
    for name in ["bob", "carol", "dave"] {
        app.join_room(&id("r1"), &player(name)).unwrap();
    }
    app.leave_room(&id("r1"), &player("bob")).unwrap();
    let room = app.leave_room(&id("r1"), &player("alice")).unwrap();
    assert_eq!(room.owner, "carol");
    assert_eq!(room.admins, names(&["carol"]));
    assert_eq!(room.players, names(&["carol", "dave"]));
}

#[test]
fn the_last_to_leave_takes_the_room_down() {
    let mut app = logged_in();
    make(&mut app, "r1", "alice", None, 5);
    make(&mut app, "r2", "bob", None, 6);
    let room = app.leave_room(&id("r1"), &player("alice")).unwrap();
    assert_eq!(room.players, names(&[]));
    assert_eq!(room.owner, "");
    assert_eq!(room.admins, names(&[]));
    assert!(app.get_room(&id("r1")).is_err());
    assert_eq!(app.get_room(&id("r2")).unwrap().players, names(&["bob"]));
}

#[test]
fn kicking_needs_permission() {
    let mut app = logged_in();
    make(&mut app, "r1", "alice", Some(4), 5);
    app.join_room(&id("r1"), &player("bob")).unwrap();
    app.join_room(&id("r1"), &player("carol")).unwrap();
    let none = HeaderMap::new();
    for req in [kick(Some("bob"), "carol"), kick(None, "carol"), kick(Some(" "), "carol")] {
        let e = app.kick_player_at(&none, &id("r1"), &req, &NOON).unwrap_err();
        assert_eq!(refused(e), (403, "需要房间管理员或平台管理员权限".to_string()));
    }
    assert_eq!(app.get_room(&id("r1")).unwrap().players, names(&["alice", "bob", "carol"]));
    let room = app.kick_player(&none, &id("r1"), &kick(Some(" alice "), " carol ")).unwrap();
    assert_eq!(room.players, names(&["alice", "bob"]));
    let room = app.kick_player_at(&admin(), &id("r1"), &kick(None, "bob"), &NOON).unwrap();
    assert_eq!(room.players, names(&["alice"]));
}

#[test]
fn kicking_is_refused() {
    let mut app = logged_in();
    make(&mut app, "r1", "alice", Some(4), 5);
    let e = app.kick_player_at(&admin(), &id("r1"), &kick(None, " "), &NOON).unwrap_err();
    assert_eq!(refused(e), (400, "目标玩家不能为空".to_string()));
    let e = app.kick_player_at(&admin(), &id("r2"), &kick(None, "bob"), &NOON).unwrap_err();
    assert_eq!(refused(e), (404, "房间不存在".to_string()));
    let e = app.kick_player_at(&admin(), &id("r1"), &kick(None, "bob"), &NOON).unwrap_err();
    assert_eq!(refused(e), (404, "目标玩家不在房间中".to_string()));
}

#[test]
fn a_kicked_owner_hands_over_and_a_kicked_last_player_closes() {
    let mut app = logged_in();
    make(&mut app, "r1", "alice", Some(4), 5);
    app.join_room(&id("r1"), &player("bob")).unwrap();
    let room = app.kick_player_at(&admin(), &id("r1"), &kick(None, "alice"), &NOON).unwrap();
    assert_eq!(room.owner, "bob");
    assert_eq!(room.admins, names(&["bob"]));
    let room = app.kick_player(&HeaderMap::new(), &id("r1"), &kick(Some("bob"), "bob")).unwrap();
    assert_eq!(room.players, names(&[]));
    assert!(app.get_room(&id("r1")).is_err());
}

#[test]
fn status_numbers() {
    assert_eq!(StatusCode::Created.as_u16(), 201);
    assert_eq!(StatusCode::NoContent.as_u16(), 204);
    assert_eq!(StatusCode::BadRequest.as_u16(), 400);
    assert_eq!(StatusCode::Unauthorized.as_u16(), 401);
    assert_eq!(StatusCode::Forbidden.as_u16(), 403);
    assert_eq!(StatusCode::NotFound.as_u16(), 404);
    assert_eq!(StatusCode::Conflict.as_u16(), 409);
}
