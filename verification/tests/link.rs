use jboy_server::api::{ApiError, PlayerActionRequest, StatusCode};
use jboy_server::clock::Timestamp;
use jboy_server::json::{write_object, JsonField};
use jboy_server::link::{
    classify, classify_text, envelope_text, pong, Connection, Frame, Inbound, Link,
};
use jboy_server::state::{create_state, AppState};
use serde_json::Value;
use tokio::sync::broadcast;

const NOON: Timestamp = Timestamp { secs: 1_700_000_000, nanos: 123_000_000 };

const LATER: Timestamp = Timestamp { secs: 1_700_000_001, nanos: 0 };

fn id(s: &str) -> String {
    s.to_string()
}

fn names(list: &[&str]) -> Vec<String> {
    list.iter().map(|s| s.to_string()).collect()
}

fn refused(e: (StatusCode, ApiError)) -> (u16, String) {
    (e.0.as_u16(), e.1.message)
}

fn open(app: &mut AppState, room: &str, player: &str) -> Link {
    let tx = broadcast::channel(128).0;
    app.ws_room_with(&id(room), &id(player), NOON, tx).unwrap()
}

fn connect(app: &mut AppState, link: &Link) -> Connection {
    app.connect_with(link, broadcast::channel(128).0, NOON, LATER)
}

fn parsed(text: &str) -> Value {
    serde_json::from_str(text).unwrap()
}

fn payload(packet: &str) -> Value {
    parsed(parsed(packet)["payload"].as_str().unwrap())
}

#[test]
fn envelopes_are_written_in_order() {
    let text = envelope_text("join", "r1", "alice", "connected", NOON, String::new());
    assert_eq!(
        text,
        "{\"event\":\"join\",\"room_id\":\"r1\",\"player\":\"alice\",\"payload\":\"connected\",\
         \"ts\":\"2023-11-14T22:13:20.123Z\"}"
    );
}

#[test]
fn envelopes_escape_their_payload() {
    let text = envelope_text("message", "r\"1", "阿丽", "a\n{\"b\":1}", LATER, String::new());
    assert_eq!(
        text,
        "{\"event\":\"message\",\"room_id\":\"r\\\"1\",\"player\":\"阿丽\",\
         \"payload\":\"a\\n{\\\"b\\\":1}\",\"ts\":\"2023-11-14T22:13:21Z\"}"
    );
}

#[test]
fn envelope_times_are_those_that_chrono_serialises() {
    for nanos in [0u32, 5_000_000, 5_000, 5] {
        let at = Timestamp { secs: 1_700_000_000, nanos };
        let text = envelope_text("e", "r", "p", "x", at, String::new());
        let time = chrono::DateTime::<chrono::Utc>::from_timestamp(at.secs, nanos).unwrap();
        assert_eq!(parsed(&text)["ts"], serde_json::to_value(time).unwrap());
    }
}

#[test]
fn objects_are_written_without_the_fallback() {
    let members = vec![(id("b"), id("x\u{1}")), (id("a"), id(""))];
    assert_eq!(write_object(&members, id("no")), "{\"b\":\"x\\u0001\",\"a\":\"\"}");
    assert_eq!(write_object(&vec![], id("no")), "{}");
}

#[test]
fn pongs_carry_milliseconds() {
    assert_eq!(
        pong(&id("r1"), &id("alice"), NOON),
        "{\"player\":\"alice\",\"room\":\"r1\",\"ts\":1700000000123,\"type\":\"pong\"}"
    );
    let early = Timestamp { secs: -1, nanos: 999_999_999 };
    assert_eq!(parsed(&pong(&id("r"), &id("p"), early))["ts"], Value::from(-1));
}

#[test]
fn texts_are_classified() {
    for (text, what) in [
        ("{\"type\":\"hello\",\"x\":1}", Inbound::Hello),
        ("{\"type\":\"ready\"}", Inbound::Ready(true)),
        ("{\"type\":\"ready\",\"ready\":true}", Inbound::Ready(true)),
        ("{\"ready\":false,\"type\":\"ready\"}", Inbound::Ready(false)),
        ("{\"type\":\"ready\",\"ready\":\"false\"}", Inbound::Ready(true)),
        ("{\"type\":\"ready\",\"ready\":0}", Inbound::Ready(true)),
        (" {\"type\" : \"ping\"} ", Inbound::Ping),
        ("{\"type\":\"\\u0070ing\"}", Inbound::Ping),
        ("{\"type\":\"PING\"}", Inbound::Message),
        ("{\"type\":7}", Inbound::Message),
        ("{\"kind\":\"ping\"}", Inbound::Message),
        ("{\"type\":\"hello\",\"type\":\"ping\"}", Inbound::Ping),
        ("[\"type\",\"ping\"]", Inbound::Message),
        ("\"ping\"", Inbound::Message),
        ("ping", Inbound::Message),
        ("", Inbound::Message),
        ("{\"type\":\"ping\"", Inbound::Message),
    ] {
        assert_eq!(classify_text(text), what, "{}", text);
    }
}

#[test]
fn members_are_classified() {
    let text = |name: &str, value: &str| (id(name), JsonField::Text(id(value)));
    assert_eq!(classify(&None), Inbound::Message);
    assert_eq!(classify(&Some(vec![])), Inbound::Message);
    assert_eq!(classify(&Some(vec![text("type", "hello")])), Inbound::Hello);
    assert_eq!(classify(&Some(vec![(id("x"), JsonField::Other), text("type", "ping")])), Inbound::Ping);
    assert_eq!(classify(&Some(vec![(id("type"), JsonField::Other)])), Inbound::Message);
    let ready = vec![text("type", "ready"), (id("ready"), JsonField::Flag(false))];
    assert_eq!(classify(&Some(ready)), Inbound::Ready(false));
    let ready = vec![text("type", "ready"), text("ready", "no")];
    assert_eq!(classify(&Some(ready)), Inbound::Ready(true));
}

#[test]
fn connecting_opens_a_room() {
    let mut app = create_state(id("secret"));
    let link = open(&mut app, "r1", " alice ");
    assert_eq!(link.room_id(), "r1");
    assert_eq!(link.player(), " alice ");
    let room = app.get_room(&id("r1")).unwrap();
    assert_eq!(room.name, "Room r1");
    assert_eq!(room.owner, "alice");
    assert_eq!(room.players, names(&["alice"]));
    assert_eq!(room.admins, names(&["alice"]));
    assert_eq!(room.max_players, 4);
    assert_eq!(room.created_at, NOON);
    // the second one finds it there
    open(&mut app, "r1", "bob");
    assert_eq!(app.get_room(&id("r1")).unwrap().players, names(&["alice"]));
    assert_eq!(app.room_count(), 1);
}

#[test]
fn connecting_needs_a_name() {
    let mut app = create_state(id("secret"));
    let e = app.ws_room(&id("r1"), &id(" \t")).unwrap_err();
    assert_eq!(refused(e), (400, "玩家名不能为空".to_string()));
    assert_eq!(app.room_count(), 0);
}

#[test]
fn a_connected_player_is_announced() {
    let mut app = create_state(id("secret"));
    let link = open(&mut app, "r1", "alice");
    let connection = connect(&mut app, &link);
    assert_eq!(connection.packets.len(), 2);
    assert_eq!(
        connection.packets[0],
        envelope_text("join", "r1", "alice", "connected", NOON, String::new())
    );
    let sync = "{\"canStart\":false,\"host\":\"alice\",\"players\":[\"alice\"],\
                \"protocol\":\"jboy-link-1\",\"readyPlayers\":[],\"room\":\"r1\",\
                \"type\":\"link_sync\"}";
    assert_eq!(
        connection.packets[1],
        envelope_text("protocol", "r1", "alice", sync, LATER, String::new())
    );
    assert_eq!(app.build_link_sync_payload(&id("r1")).unwrap(), sync);
}

#[test]
fn a_room_keeps_one_channel() {
    let mut app = create_state(id("secret"));
    let alice = app.ws_room(&id("r1"), &id("alice")).unwrap();
    let bob = app.ws_room(&id("r1"), &id("bob")).unwrap();
    let carol = app.ws_room(&id("r2"), &id("carol")).unwrap();
    let a = app.connect(&alice);
    let b = app.connect(&bob);
    let c = app.connect(&carol);
    assert!(a.tx.same_channel(&b.tx));
    assert!(!a.tx.same_channel(&c.tx));
    let mut rx = a.tx.subscribe();
    for n in 0..129 {
        b.tx.send(format!("{}", n)).unwrap();
    }
    // 128 messages are held
    assert!(matches!(rx.try_recv(), Err(broadcast::error::TryRecvError::Lagged(1))));
    assert_eq!(rx.try_recv().unwrap(), "1");
}

#[test]
fn a_given_channel_is_used() {
    let mut app = create_state(id("secret"));
    let first = broadcast::channel(128).0;
    let link = app.ws_room_with(&id("r1"), &id("alice"), NOON, first.clone()).unwrap();
    let connection = connect(&mut app, &link);
    assert!(connection.tx.same_channel(&first));
}

#[test]
fn connecting_takes_a_seat_while_there_is_one() {
    let mut app = create_state(id("secret"));
    for name in ["a", "b", "c", "d", "e"] {
        let link = open(&mut app, "r1", name);
        connect(&mut app, &link);
        connect(&mut app, &link);
    }
    let room = app.get_room(&id("r1")).unwrap();
    assert_eq!(room.players, names(&["a", "b", "c", "d"]));
    assert_eq!(room.owner, "a");
}

#[test]
fn hello_is_answered_with_a_sync() {
    let mut app = create_state(id("secret"));
    let link = open(&mut app, "r1", "alice");
    let packets = app.receive(&link, "{\"type\":\"hello\"}");
    assert_eq!(packets.len(), 1);
    assert_eq!(parsed(&packets[0])["event"], Value::from("protocol"));
    assert_eq!(payload(&packets[0])["type"], Value::from("link_sync"));
    assert_eq!(payload(&packets[0])["host"], Value::from("alice"));
}

#[test]
fn two_ready_players_can_start() {
    let mut app = create_state(id("secret"));
    let alice = open(&mut app, "r1", "alice");
    let bob = open(&mut app, "r1", "bob");
    connect(&mut app, &alice);
    connect(&mut app, &bob);
    let packets = app.receive(&alice, "{\"type\":\"ready\",\"ready\":true}");
    assert_eq!(packets.len(), 1);
    assert_eq!(payload(&packets[0])["readyPlayers"], Value::from(vec!["alice"]));
    assert_eq!(payload(&packets[0])["canStart"], Value::from(false));
    // twice is once
    let packets = app.receive(&alice, "{\"type\":\"ready\"}");
    assert_eq!(payload(&packets[0])["readyPlayers"], Value::from(vec!["alice"]));
    let packets = app.receive(&bob, "{\"type\":\"ready\"}");
    assert_eq!(payload(&packets[0])["readyPlayers"], Value::from(vec!["alice", "bob"]));
    assert_eq!(payload(&packets[0])["players"], Value::from(vec!["alice", "bob"]));
    assert_eq!(payload(&packets[0])["canStart"], Value::from(true));
    let packets = app.receive(&alice, "{\"type\":\"ready\",\"ready\":false}");
    assert_eq!(payload(&packets[0])["readyPlayers"], Value::from(vec!["bob"]));
    assert_eq!(payload(&packets[0])["canStart"], Value::from(false));
    let sync = app.link_sync(&id("r1")).unwrap();
    assert_eq!(sync.room, "r1");
    assert_eq!(sync.host, "alice");
    assert_eq!(sync.players, names(&["alice", "bob"]));
    assert_eq!(sync.ready_players, names(&["bob"]));
    assert!(!sync.can_start);
}

#[test]
fn leaving_and_kicking_end_readiness() {
    let mut app = create_state(id("secret"));
    for name in ["alice", "bob", "carol"] {
        let link = open(&mut app, "r1", name);
        connect(&mut app, &link);
        app.receive_with(&link, "", Inbound::Ready(true), NOON, NOON);
    }
    app.leave_room(&id("r1"), &PlayerActionRequest { player: id("bob") }).unwrap();
    assert_eq!(app.link_sync(&id("r1")).unwrap().ready_players, names(&["alice", "carol"]));
    let kick = jboy_server::api::KickPlayerRequest { requester: Some(id("alice")), target: id("carol") };
    app.kick_player(&axum::http::HeaderMap::new(), &id("r1"), &kick).unwrap();
    assert_eq!(app.link_sync(&id("r1")).unwrap().ready_players, names(&["alice"]));
}

#[test]
fn ping_is_answered_with_a_pong() {
    let mut app = create_state(id("secret"));
    let link = open(&mut app, "r1", "alice");
    let packets = app.receive_with(&link, "{\"type\":\"ping\"}", Inbound::Ping, NOON, LATER);
    let pong = pong(&id("r1"), &id("alice"), NOON);
    assert_eq!(
        packets,
        vec![envelope_text("protocol", "r1", "alice", &pong, LATER, String::new())]
    );
    let packets = app.receive(&link, "{\"type\":\"ping\"}");
    assert_eq!(payload(&packets[0])["type"], Value::from("pong"));
}

#[test]
fn other_messages_are_passed_on() {
    let mut app = create_state(id("secret"));
    let link = open(&mut app, "r1", "alice");
    let packets = app.receive_with(&link, "hi", Inbound::Message, NOON, LATER);
    assert_eq!(packets, vec![envelope_text("message", "r1", "alice", "hi", LATER, String::new())]);
    let packets = app.receive(&link, "{\"type\":\"move\"}");
    assert_eq!(packets.len(), 1);
    assert_eq!(parsed(&packets[0])["event"], Value::from("message"));
    assert_eq!(parsed(&packets[0])["payload"], Value::from("{\"type\":\"move\"}"));
}

#[test]
fn messages_to_a_room_that_is_gone() {
    let mut app = create_state(id("secret"));
    let link = open(&mut app, "r1", "alice");
    app.leave_room(&id("r1"), &PlayerActionRequest { player: id("alice") }).unwrap();
    assert!(app.receive(&link, "{\"type\":\"hello\"}").is_empty());
    assert!(app.receive(&link, "{\"type\":\"ready\"}").is_empty());
    assert_eq!(app.receive(&link, "{\"type\":\"ping\"}").len(), 1);
    assert_eq!(app.receive(&link, "hi").len(), 1);
    let packets = app.disconnect_at(&link, NOON, LATER);
    assert_eq!(
        packets,
        vec![envelope_text("leave", "r1", "alice", "disconnected", NOON, String::new())]
    );
    // a connection to it is announced, and finds no room
    let connection = connect(&mut app, &link);
    assert_eq!(connection.packets.len(), 1);
    assert_eq!(app.room_count(), 0);
}

#[test]
fn frames_are_handled_until_the_close() {
    let mut app = create_state(id("secret"));
    let alice = open(&mut app, "r1", "alice");
    let bob = open(&mut app, "r2", "bob");
    connect(&mut app, &alice);
    connect(&mut app, &bob);
    assert!(app.on_frame(&alice, &Frame::Other).unwrap().is_empty());
    let packets = app.on_frame(&alice, &Frame::Text(id("{\"type\":\"ready\"}"))).unwrap();
    assert_eq!(payload(&packets[0])["readyPlayers"], Value::from(vec!["alice"]));
    let packets = app.on_frame(&alice, &Frame::Text(id("hi"))).unwrap();
    assert_eq!(parsed(&packets[0])["payload"], Value::from("hi"));
    assert!(app.on_frame(&alice, &Frame::Close).is_none());
    // nothing but alice's readiness has changed
    assert_eq!(app.link_sync(&id("r1")).unwrap().ready_players, names(&["alice"]));
    app.disconnect(&alice);
    assert!(app.get_room(&id("r1")).is_err());
    let room = app.get_room(&id("r2")).unwrap();
    assert_eq!(room.players, names(&["bob"]));
    assert_eq!(app.link_sync(&id("r2")).unwrap().ready_players, names(&[]));
}

#[test]
fn disconnecting_hands_the_room_over() {
    let mut app = create_state(id("secret"));
    let alice = open(&mut app, "r1", "alice");
    let bob = open(&mut app, "r1", "bob");
    connect(&mut app, &alice);
    connect(&mut app, &bob);
    app.receive(&alice, "{\"type\":\"ready\"}");
    let packets = app.disconnect_at(&alice, NOON, LATER);
    assert_eq!(packets.len(), 2);
    assert_eq!(
        packets[0],
        envelope_text("leave", "r1", "alice", "disconnected", NOON, String::new())
    );
    assert_eq!(parsed(&packets[1])["event"], Value::from("protocol"));
    assert_eq!(payload(&packets[1])["host"], Value::from("bob"));
    assert_eq!(payload(&packets[1])["players"], Value::from(vec!["bob"]));
    assert_eq!(payload(&packets[1])["readyPlayers"], Value::from(Vec::<String>::new()));
    assert_eq!(app.get_room(&id("r1")).unwrap().admins, names(&["bob"]));
}

#[test]
fn the_last_disconnection_closes_the_room() {
    let mut app = create_state(id("secret"));
    let alice = open(&mut app, "r1", "alice");
    connect(&mut app, &alice);
    let packets = app.disconnect_at(&alice, NOON, LATER);
    assert_eq!(
        packets,
        vec![
            envelope_text("leave", "r1", "alice", "disconnected", NOON, String::new()),
            envelope_text("room_closed", "r1", "alice", "empty", LATER, String::new()),
        ]
    );
    assert!(app.get_room(&id("r1")).is_err());
    assert_eq!(app.disconnect(&alice).len(), 1);
}

#[test]
fn disconnecting_undoes_connecting() {
    let mut app = create_state(id("secret"));
    let alice = open(&mut app, "r1", "alice");
    let bob = open(&mut app, "r1", "bob");
    connect(&mut app, &alice);
    connect(&mut app, &bob);
    assert_eq!(app.get_room(&id("r1")).unwrap().players, names(&["alice", "bob"]));
    app.disconnect(&bob);
    let room = app.get_room(&id("r1")).unwrap();
    assert_eq!(room.players, names(&["alice"]));
    assert_eq!(room.owner, "alice");
}

#[test]
fn names_are_trimmed_for_the_owner_alone() {
    let mut app = create_state(id("secret"));
    let link = open(&mut app, "r1", " alice");
    connect(&mut app, &link);
    assert_eq!(app.get_room(&id("r1")).unwrap().players, names(&["alice", " alice"]));
}
