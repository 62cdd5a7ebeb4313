use axum::http::{HeaderMap, HeaderValue};
use jboy_server::api::{AdminLoginRequest, ApiError, CreateRoomRequest, KickPlayerRequest, StatusCode};
use jboy_server::clock::{Timestamp, MAX_SECS};
use jboy_server::headers::{extract_admin_token, token_from_text};
use jboy_server::state::{create_state, AppState};

const NOON: Timestamp = Timestamp { secs: 1_700_000_000, nanos: 500 };

const DAY: i64 = 24 * 3600;

fn at(secs: i64, nanos: u32) -> Timestamp {
    Timestamp { secs, nanos }
}

fn credentials(username: &str, password: &str) -> AdminLoginRequest {
    AdminLoginRequest { username: username.to_string(), password: password.to_string() }
}

fn bearing(token: &str) -> HeaderMap {
    let mut headers = HeaderMap::new();
    headers.insert("x-admin-token", HeaderValue::from_str(token).unwrap());
    headers
}

fn logged_in() -> AppState {
    let mut app = create_state("secret".to_string());
    app.admin_login_with(&credentials("admin", "secret"), "t1".to_string(), NOON).unwrap();
    app
}

fn refused(e: (StatusCode, ApiError)) -> (u16, String) {
    (e.0.as_u16(), e.1.message)
}

#[test]
fn login_answers_with_token_role_and_end() {
    let mut app = create_state("secret".to_string());
    let answer = app
        .admin_login_with(&credentials(" admin\t", "secret"), "t1".to_string(), NOON)
        .unwrap();
    assert_eq!(answer.token, "t1");
    assert_eq!(answer.role, "admin");
    assert_eq!(answer.expires_at, at(1_700_086_400, 500));
    let session = app.ensure_admin_at(&bearing("t1"), &NOON).unwrap();
    assert_eq!(session.username, "admin");
    assert_eq!(session.created_at, NOON);
    assert_eq!(session.expires_at, at(1_700_086_400, 500));
}

#[test]
fn wrong_credentials_are_refused() {
    let wrong = (401u16, "管理员账号或密码错误".to_string());
    let mut app = create_state("secret".to_string());
    for req in [
        credentials("admin", "Secret"),
        credentials("admin", " secret"),
        credentials("root", "secret"),
        credentials("Admin", "secret"),
        credentials("", ""),
    ] {
        let answer = app.admin_login_with(&req, "t1".to_string(), NOON);
        assert_eq!(refused(answer.unwrap_err()), wrong);
        assert_eq!(refused(app.admin_login(&req).unwrap().unwrap_err()), wrong);
    }
    assert_eq!(app.count_active_admin_sessions_at(&NOON), 0);
}

#[test]
fn a_session_lasts_exactly_a_day() {
    let last = at(NOON.secs + DAY, 499);
    let over = at(NOON.secs + DAY, 500);
    let mut app = logged_in();
    assert!(app.ensure_admin_at(&bearing("t1"), &last).is_ok());
    let e = app.ensure_admin_at(&bearing("t1"), &over).unwrap_err();
    assert_eq!(refused(e), (403, "管理员令牌无效或已过期".to_string()));
    // the session was forgotten: even an earlier time does not bring it back
    assert!(app.ensure_admin_at(&bearing("t1"), &NOON).is_err());
    assert!(app.validate_admin_token_at(&"t1".to_string(), &NOON).is_none());
}

#[test]
fn a_token_drawn_at_random_is_a_uuid() {
    let mut app = create_state("secret".to_string());
    let a = app.admin_login(&credentials("admin", "secret")).unwrap().unwrap();
    let b = app.admin_login(&credentials("admin", "secret")).unwrap().unwrap();
    assert_ne!(a.token, b.token);
    let chars: Vec<char> = a.token.chars().collect();
    assert_eq!(chars.len(), 36);
    for (i, c) in chars.iter().enumerate() {
        if i == 8 || i == 13 || i == 18 || i == 23 {
            assert_eq!(*c, '-');
        } else {
            assert!(c.is_ascii_digit() || ('a'..='f').contains(c));
        }
    }
    assert_eq!(chars[14], '4');
    assert!(['8', '9', 'a', 'b'].contains(&chars[19]));
}

#[test]
fn the_clock_is_the_machines() {
    let mut app = create_state("secret".to_string());
    let before = chrono::Utc::now().timestamp();
    let token = app.admin_login(&credentials("admin", "secret")).unwrap().unwrap().token;
    let session = app.admin_verify(&bearing(&token)).unwrap();
    let after = chrono::Utc::now().timestamp();
    assert!(before <= session.created_at.secs && session.created_at.secs <= after);
    assert_eq!(session.expires_at.secs, session.created_at.secs + DAY);
    assert_eq!(session.expires_at.nanos, session.created_at.nanos);
    let health = app.health();
    assert!(before <= health.timestamp.secs && health.timestamp.secs <= after + 1);
    assert!(app.validate_admin_token(&token).is_some());
    assert!(app.ensure_admin(&bearing(&token)).is_ok());
    assert_eq!(app.count_active_admin_sessions(), 1);
}

#[test]
fn a_session_can_end_with_the_calendar() {
    let mut app = create_state("secret".to_string());
    let late = at(MAX_SECS - DAY, 0);
    let answer = app
        .admin_login_with(&credentials("admin", "secret"), "t1".to_string(), late)
        .unwrap();
    assert_eq!(answer.expires_at, at(MAX_SECS, 0));
}

#[test]
fn verify_tells_of_the_session() {
    let mut app = logged_in();
    let answer = app.admin_verify_at(&bearing("t1"), &NOON).unwrap();
    assert!(answer.valid);
    assert_eq!(answer.username, "admin");
    assert_eq!(answer.created_at, NOON);
    assert_eq!(answer.expires_at, at(NOON.secs + DAY, 500));
    let e = app.admin_verify_at(&HeaderMap::new(), &NOON).unwrap_err();
    assert_eq!(refused(e), (401, "缺少管理员令牌".to_string()));
    let e = app.admin_verify_at(&bearing("t2"), &NOON).unwrap_err();
    assert_eq!(refused(e), (403, "管理员令牌无效或已过期".to_string()));
}

#[test]
fn logout_works_once() {
    let mut app = logged_in();
    let e = app.admin_logout(&HeaderMap::new()).unwrap_err();
    assert_eq!(refused(e), (401, "缺少管理员令牌".to_string()));
    assert!(app.admin_logout_at(&bearing("t1"), &NOON).unwrap().ok);
    let e = app.admin_logout(&bearing("t1")).unwrap_err();
    assert_eq!(refused(e), (403, "管理员令牌无效".to_string()));
    assert!(app.ensure_admin_at(&bearing("t1"), &NOON).is_err());
}

#[test]
fn a_session_that_is_over_cannot_log_out() {
    let over = at(NOON.secs + DAY, 500);
    let mut app = logged_in();
    assert_eq!(app.session_count(), 1);
    let e = app.admin_logout_at(&bearing("t1"), &over).unwrap_err();
    assert_eq!(refused(e), (403, "管理员令牌无效或已过期".to_string()));
    assert_eq!(app.session_count(), 0);
    let e = app.admin_logout_at(&bearing("t1"), &NOON).unwrap_err();
    assert_eq!(refused(e), (403, "管理员令牌无效".to_string()));
    // the last moment is still in time
    let mut app = logged_in();
    assert!(app.admin_logout_at(&bearing("t1"), &at(NOON.secs + DAY, 499)).unwrap().ok);
    assert_eq!(app.session_count(), 0);
}

#[test]
fn a_session_that_would_outlast_the_calendar_is_not_opened() {
    let late = at(MAX_SECS - DAY + 1, 0);
    let mut app = create_state("secret".to_string());
    assert!(app.admin_login_at(&credentials("admin", "secret"), "t1".to_string(), late).is_none());
    assert_eq!(app.session_count(), 0);
    let answer = app.admin_login_at(&credentials("admin", "wrong"), "t1".to_string(), late);
    assert_eq!(refused(answer.unwrap().unwrap_err()).0, 401);
    let answer = app.admin_login_at(
        &credentials("admin", "secret"),
        "t1".to_string(),
        at(MAX_SECS - DAY, 999_999_999),
    );
    assert_eq!(answer.unwrap().unwrap().expires_at, at(MAX_SECS, 999_999_999));
    assert_eq!(app.session_count(), 1);
}

#[test]
fn the_token_is_the_trimmed_first_header_value() {
    assert_eq!(extract_admin_token(&HeaderMap::new()), None);
    assert_eq!(extract_admin_token(&bearing("  abc\t")), Some("abc".to_string()));
    assert_eq!(extract_admin_token(&bearing("   ")), None);
    assert_eq!(extract_admin_token(&bearing("")), None);

    let mut twice = bearing("first");
    twice.append("x-admin-token", HeaderValue::from_static("second"));
    assert_eq!(extract_admin_token(&twice), Some("first".to_string()));

    let mut capital = HeaderMap::new();
    let name = axum::http::HeaderName::from_bytes(b"X-Admin-Token").unwrap();
    capital.insert(name, HeaderValue::from_static("abc"));
    assert_eq!(extract_admin_token(&capital), Some("abc".to_string()));

    let mut other = HeaderMap::new();
    other.insert("authorization", HeaderValue::from_static("abc"));
    assert_eq!(extract_admin_token(&other), None);

    let mut opaque = HeaderMap::new();
    opaque.insert("x-admin-token", HeaderValue::from_bytes(b"ab\xff").unwrap());
    assert_eq!(extract_admin_token(&opaque), None);
}

#[test]
fn tokens_are_trimmed_of_unicode_whitespace() {
    assert_eq!(token_from_text(None), None);
    assert_eq!(token_from_text(Some("\u{3000}a b\u{2003}".to_string())), Some("a b".to_string()));
    assert_eq!(token_from_text(Some("\u{a0}\u{85}".to_string())), None);
}

#[test]
fn counting_forgets_the_sessions_that_are_over() {
    let mut app = logged_in();
    let later = at(NOON.secs + 10, 0);
    app.admin_login_with(&credentials("admin", "secret"), "t2".to_string(), later).unwrap();
    app.admin_login_with(&credentials("admin", "secret"), "t3".to_string(), NOON).unwrap();
    assert_eq!(app.count_active_admin_sessions_at(&NOON), 3);
    let between = at(NOON.secs + DAY + 5, 0);
    assert_eq!(app.count_active_admin_sessions_at(&between), 1);
    assert_eq!(app.count_active_admin_sessions_at(&NOON), 1);
    assert!(app.ensure_admin_at(&bearing("t2"), &between).is_ok());
    assert!(app.ensure_admin_at(&bearing("t1"), &NOON).is_err());
}

#[test]
fn stats_count_rooms_players_and_sessions() {
    let mut app = logged_in();
    for _ in 0..3 {
        let req = CreateRoomRequest {
            name: "r".to_string(),
            owner: "alice".to_string(),
            max_players: None,
        };
        app.create_room_with(
            &bearing("t1"),
            &req,
            &NOON,
            format!("r{}", app.room_count()),
            NOON,
            tokio::sync::broadcast::channel(128).0,
        )
        .unwrap();
    }
    let bob = jboy_server::api::PlayerActionRequest { player: "bob".to_string() };
    app.join_room(&"r1".to_string(), &bob).unwrap();
    let stamp = at(NOON.secs + 2, 7);
    let stats = app.get_stats_at(&bearing("t1"), &NOON, &NOON, stamp).unwrap();
    assert_eq!(stats.timestamp, stamp);
    assert_eq!(stats.room_count, 3);
    assert_eq!(stats.connected_players, 4);
    assert_eq!(stats.active_admin_sessions, 1);
    assert_eq!(app.connected_players(), 4);

    let over = at(NOON.secs + DAY, 500);
    let stats = app.get_stats_at(&bearing("t1"), &NOON, &over, stamp).unwrap();
    assert_eq!(stats.active_admin_sessions, 0);
    let e = app.get_stats(&HeaderMap::new()).unwrap_err();
    assert_eq!(refused(e), (401, "缺少管理员令牌".to_string()));
}

#[test]
fn health_counts_rooms() {
    let app = create_state("secret".to_string());
    let health = app.health_at(NOON);
    assert_eq!(health.status, "ok");
    assert_eq!(health.timestamp, NOON);
    assert_eq!(health.room_count, 0);
}

#[test]
fn managing_a_room_takes_its_administrator_or_a_token() {
    let mut app = logged_in();
    let req = CreateRoomRequest {
        name: "r".to_string(),
        owner: "alice".to_string(),
        max_players: None,
    };
    let tx = tokio::sync::broadcast::channel(128).0;
    let room = app
        .create_room_with(&bearing("t1"), &req, &NOON, "r".to_string(), NOON, tx)
        .unwrap()
        .1;
    let none = HeaderMap::new();
    let alice = "alice".to_string();
    let bob = "bob".to_string();
    let nobody = String::new();
    assert!(app.ensure_room_admin_or_platform_admin(&none, &room, &alice).is_ok());
    assert!(app.ensure_room_admin_or_platform_admin_at(&bearing("t1"), &room, &bob, &NOON).is_ok());
    assert!(app
        .ensure_room_admin_or_platform_admin_at(&bearing("t1"), &room, &nobody, &NOON)
        .is_ok());
    for requester in [&bob, &nobody] {
        let e = app.ensure_room_admin_or_platform_admin(&none, &room, requester).unwrap_err();
        assert_eq!(refused(e), (403, "需要房间管理员或平台管理员权限".to_string()));
    }
    let over = at(NOON.secs + DAY, 500);
    assert!(app
        .ensure_room_admin_or_platform_admin_at(&bearing("t1"), &room, &bob, &over)
        .is_err());
    // the session that was found to be over is forgotten
    let kick = KickPlayerRequest { requester: None, target: "alice".to_string() };
    let e = app.kick_player_at(&bearing("t1"), &room.id, &kick, &NOON).unwrap_err();
    assert_eq!(refused(e), (403, "需要房间管理员或平台管理员权限".to_string()));
}

#[test]
fn later_points_in_time() {
    assert!(at(2, 0).is_after(&at(1, 999_999_999)));
    assert!(at(1, 2).is_after(&at(1, 1)));
    assert!(!at(1, 1).is_after(&at(1, 1)));
    assert!(!at(-1, 5).is_after(&at(0, 0)));
}
