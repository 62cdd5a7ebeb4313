use axum::http::{HeaderMap, HeaderValue};
use jboy_server::api::{
    AdminLoginRequest, CreateRoomRequest, KickPlayerRequest, PlayerActionRequest, StatusCode,
};
use jboy_server::state::{create_state, AppState};

fn test_app() -> AppState {
    create_state("secret".to_string())
}

fn headers(token: Option<&str>) -> HeaderMap {
    let mut headers = HeaderMap::new();
    if let Some(token) = token {
        headers.insert("x-admin-token", HeaderValue::from_str(token).unwrap());
    }
    headers
}

fn login(app: &mut AppState) -> String {
    let req = AdminLoginRequest { username: "admin".to_string(), password: "secret".to_string() };
    app.admin_login(&req).expect("session fits").expect("login failed").token
}

fn room_request(name: &str, owner: &str, max_players: Option<usize>) -> CreateRoomRequest {
    CreateRoomRequest { name: name.to_string(), owner: owner.to_string(), max_players }
}

fn player(name: &str) -> PlayerActionRequest {
    PlayerActionRequest { player: name.to_string() }
}

#[test]
fn admin_login_verify_logout_flow() {
    let mut app = test_app();
    let token = login(&mut app);

    let verified = app.admin_verify(&headers(Some(&token))).expect("verify failed");
    assert_eq!(verified.valid, true);
    assert_eq!(verified.username, "admin");

    let logout = app.admin_logout(&headers(Some(&token)));
    assert!(logout.is_ok());
    assert!(logout.unwrap().ok);

    let verify_again = app.admin_verify(&headers(Some(&token)));
    assert_eq!(verify_again.unwrap_err().0, StatusCode::Forbidden);
}

#[test]
fn create_room_requires_admin() {
    let mut app = test_app();

    let no_token = app.create_room(&headers(None), &room_request("room-a", "alice", None));
    assert_eq!(no_token.unwrap_err().0, StatusCode::Unauthorized);

    let token = login(&mut app);
    let (status, room) = app
        .create_room(&headers(Some(&token)), &room_request("room-b", "alice", Some(3)))
        .expect("create failed");
    assert_eq!(status, StatusCode::Created);
    assert_eq!(room.name, "room-b");
    assert_eq!(room.owner, "alice");
    assert_eq!(room.admins, vec!["alice".to_string()]);
}

#[test]
fn join_and_kick_player_flow() {
    let mut app = test_app();
    let token = login(&mut app);
    let room = app
        .create_room(&headers(Some(&token)), &room_request("room-c", "alice", Some(4)))
        .expect("create failed")
        .1;

    assert!(app.join_room(&room.id, &player("bob")).is_ok());
    assert!(app.join_room(&room.id, &player("charlie")).is_ok());

    let kick = KickPlayerRequest {
        requester: Some("alice".to_string()),
        target: "charlie".to_string(),
    };
    let kicked = app.kick_player(&headers(Some(&token)), &room.id, &kick);
    assert!(kicked.is_ok());

    let players = kicked.unwrap().players;
    assert!(players.iter().any(|p| p == "alice"));
    assert!(players.iter().any(|p| p == "bob"));
    assert!(!players.iter().any(|p| p == "charlie"));
}

#[test]
fn owner_leave_transfers_owner() {
    let mut app = test_app();
    let token = login(&mut app);
    let room = app
        .create_room(&headers(Some(&token)), &room_request("room-d", "alice", Some(4)))
        .expect("create failed")
        .1;

    let _ = app.join_room(&room.id, &player("bob"));

    let left = app.leave_room(&room.id, &player("alice"));
    assert!(left.is_ok());
    let room_after = left.unwrap();
    assert_eq!(room_after.owner, "bob");
    assert_eq!(room_after.admins, vec!["bob".to_string()]);
}
