use ht::api::{
    alis_message, asset_path, event_stream_message, static_response, write_size, AlisFrame,
    Subscription, STATUS_NOT_FOUND, STATUS_OK,
};
use serde_json::Value;
use ht::session::Event;

fn value(text: &str) -> Value {
    serde_json::from_str(text).unwrap()
}

fn none() -> Subscription {
    Subscription::default()
}

fn init() -> Event {
    Event::Init(5, 80, 24, 123, "dump".to_string(), "screen".to_string())
}

fn output() -> Event {
    Event::Output(6, "hi\r\n".to_string())
}

fn resize() -> Event {
    Event::Resize(7, 100, 30)
}

fn snapshot() -> Event {
    Event::Snapshot(100, 30, "dump".to_string(), "screen".to_string())
}

#[test]
fn parse_subscription() {
    assert_eq!(Subscription::parse("init"), Ok(Subscription { init: true, ..none() }));
    assert_eq!(Subscription::parse("output"), Ok(Subscription { output: true, ..none() }));
    assert_eq!(Subscription::parse("resize"), Ok(Subscription { resize: true, ..none() }));
    assert_eq!(Subscription::parse("snapshot"), Ok(Subscription { snapshot: true, ..none() }));
    assert_eq!(
        Subscription::parse("init,output"),
        Ok(Subscription { init: true, output: true, ..none() })
    );
    assert_eq!(
        Subscription::parse("snapshot,resize,output,init"),
        Ok(Subscription { init: true, snapshot: true, resize: true, output: true })
    );
    assert_eq!(
        Subscription::parse("output,output"),
        Ok(Subscription { output: true, ..none() })
    );
}

#[test]
fn parse_subscription_with_unknown_name() {
    assert_eq!(Subscription::parse(""), Err("invalid event name: ".to_string()));
    assert_eq!(Subscription::parse("input"), Err("invalid event name: input".to_string()));
    assert_eq!(Subscription::parse("init,"), Err("invalid event name: ".to_string()));
    assert_eq!(Subscription::parse(",init"), Err("invalid event name: ".to_string()));
    assert_eq!(Subscription::parse("init, output"), Err("invalid event name:  output".to_string()));
    assert_eq!(Subscription::parse("Init"), Err("invalid event name: Init".to_string()));
    assert_eq!(Subscription::parse("a,b"), Err("invalid event name: a".to_string()));
    assert_eq!(Subscription::parse("init,b,c"), Err("invalid event name: b".to_string()));
}

#[test]
fn subscription_from_str() {
    assert_eq!(
        "init,snapshot".parse::<Subscription>(),
        Ok(Subscription { init: true, snapshot: true, ..none() })
    );
    assert_eq!(
        "init,nothing".parse::<Subscription>(),
        Err("invalid event name: nothing".to_string())
    );
    assert_eq!("".parse::<Subscription>().unwrap_or_default(), none());
    assert_eq!(
        none(),
        Subscription { init: false, snapshot: false, resize: false, output: false }
    );
}

#[test]
fn default_subscription_wants_nothing() {
    let sub = none();
    assert!(!sub.wants(&init()));
    assert!(!sub.wants(&output()));
    assert!(!sub.wants(&resize()));
    assert!(!sub.wants(&snapshot()));
}

#[test]
fn subscription_wants_its_kinds() {
    let sub = Subscription::parse("init,resize").unwrap();
    assert!(sub.wants(&init()));
    assert!(!sub.wants(&output()));
    assert!(sub.wants(&resize()));
    assert!(!sub.wants(&snapshot()));
}

#[test]
fn init_to_json() {
    assert_eq!(
        init().to_json(),
        value(
            r#"{"type":"init","data":{"cols":80,"rows":24,"pid":123,"seq":"dump","text":"screen"}}"#
        )
    );
}

#[test]
fn output_to_json() {
    assert_eq!(
        output().to_json(),
        value(r#"{"type":"output","data":{"seq":"hi\r\n"}}"#)
    );
    assert_eq!(
        output().to_json().to_string(),
        r#"{"data":{"seq":"hi\r\n"},"type":"output"}"#
    );
}

#[test]
fn resize_to_json() {
    assert_eq!(
        resize().to_json(),
        value(r#"{"type":"resize","data":{"cols":100,"rows":30}}"#)
    );
}

#[test]
fn snapshot_to_json() {
    assert_eq!(
        snapshot().to_json(),
        value(r#"{"type":"snapshot","data":{"cols":100,"rows":30,"seq":"dump","text":"screen"}}"#)
    );
}

#[test]
fn time_is_not_part_of_the_json_form() {
    assert_eq!(
        Event::Output(1, "x".to_string()).to_json(),
        Event::Output(2, "x".to_string()).to_json()
    );
    assert_eq!(
        Event::Resize(1, 2, 3).to_json(),
        Event::Resize(9, 2, 3).to_json()
    );
}

#[test]
fn negative_pid_to_json() {
    let event = Event::Init(0, 1, 1, -1, String::new(), String::new());
    assert_eq!(
        event.to_json(),
        value(r#"{"type":"init","data":{"cols":1,"rows":1,"pid":-1,"seq":"","text":""}}"#)
    );
}

#[test]
fn largest_numbers_to_json() {
    let event = Event::Resize(0, usize::MAX, 0);
    assert_eq!(
        event.to_json().to_string(),
        format!(r#"{{"data":{{"cols":{},"rows":0}},"type":"resize"}}"#, usize::MAX)
    );
    let event = Event::Init(0, 1, 1, i32::MIN, String::new(), String::new());
    assert_eq!(
        event.to_json().to_string(),
        r#"{"data":{"cols":1,"pid":-2147483648,"rows":1,"seq":"","text":""},"type":"init"}"#
    );
}

#[test]
fn event_stream_tells_what_is_wanted() {
    let sub = Subscription::parse("output,snapshot").unwrap();
    assert_eq!(event_stream_message(Ok(init()), sub), None);
    assert_eq!(event_stream_message(Ok(output()), sub), Some(Ok(output().to_json())));
    assert_eq!(event_stream_message(Ok(resize()), sub), None);
    assert_eq!(event_stream_message(Ok(snapshot()), sub), Some(Ok(snapshot().to_json())));
    let all = Subscription::parse("init,output,resize,snapshot").unwrap();
    assert_eq!(event_stream_message(Ok(init()), all), Some(Ok(init().to_json())));
    assert_eq!(event_stream_message(Ok(resize()), all), Some(Ok(resize().to_json())));
    assert_eq!(event_stream_message(Ok(output()), none()), None);
}

#[test]
fn event_stream_passes_lag_on() {
    assert_eq!(event_stream_message(Err(8), none()), Some(Err(8)));
    let all = Subscription::parse("init,output,resize,snapshot").unwrap();
    assert_eq!(event_stream_message(Err(1), all), Some(Err(1)));
}

#[test]
fn alis_frames() {
    assert_eq!(
        alis_message(Ok(init())),
        Some(Ok(AlisFrame::Init { time: 5, cols: 80, rows: 24, init: "dump".to_string() }))
    );
    assert_eq!(
        alis_message(Ok(output())),
        Some(Ok(AlisFrame::Output { time: 6, data: "hi\r\n".to_string() }))
    );
    assert_eq!(
        alis_message(Ok(resize())),
        Some(Ok(AlisFrame::Resize { time: 7, size: "100x30".to_string() }))
    );
    assert_eq!(alis_message(Ok(snapshot())), None);
    assert_eq!(alis_message(Err(3)), Some(Err(3)));
}

#[test]
fn alis_frames_to_json() {
    let time = || Value::from(1.5);
    let frame = AlisFrame::Init { time: 5, cols: 80, rows: 24, init: "dump".to_string() };
    assert_eq!(frame.time(), 5);
    assert_eq!(
        frame.to_json(time()),
        value(r#"{"time":1.5,"cols":80,"rows":24,"init":"dump"}"#)
    );
    let frame = AlisFrame::Output { time: 6, data: "hi\r\n".to_string() };
    assert_eq!(frame.time(), 6);
    assert_eq!(frame.to_json(time()), value(r#"[1.5,"o","hi\r\n"]"#));
    assert_eq!(frame.to_json(time()).to_string(), r#"[1.5,"o","hi\r\n"]"#);
    let frame = AlisFrame::Resize { time: 7, size: "100x30".to_string() };
    assert_eq!(frame.time(), 7);
    assert_eq!(frame.to_json(Value::from(0.25)), value(r#"[0.25,"r","100x30"]"#));
    let frame = alis_message(Ok(resize())).unwrap().unwrap();
    assert_eq!(frame.to_json(Value::from(7)).to_string(), r#"[7,"r","100x30"]"#);
}

#[test]
fn sizes_in_words() {
    assert_eq!(write_size(80, 24), "80x24");
    assert_eq!(write_size(0, 1000), "0x1000");
}

#[test]
fn asset_paths() {
    assert_eq!(asset_path("/"), "index.html");
    assert_eq!(asset_path(""), "index.html");
    assert_eq!(asset_path("///"), "index.html");
    assert_eq!(asset_path("/index.html"), "index.html");
    assert_eq!(asset_path("/js/player.js"), "js/player.js");
    assert_eq!(asset_path("//a/b/"), "a/b/");
    assert_eq!(asset_path("style.css"), "style.css");
}

#[test]
fn asset_that_is_there() {
    let response = static_response("index.html", Some(b"<html>".to_vec()));
    assert_eq!(response.status, STATUS_OK);
    assert_eq!(response.status, 200);
    assert_eq!(response.content_type, Some("text/html".to_string()));
    assert_eq!(response.body, b"<html>".to_vec());
    let response = static_response("img/logo.png", Some(vec![1, 2, 3]));
    assert_eq!(response.content_type, Some("image/png".to_string()));
    let response = static_response("LICENSE", Some(vec![]));
    assert_eq!(response.content_type, Some("application/octet-stream".to_string()));
}

#[test]
fn asset_that_is_not_there() {
    let response = static_response("nothing.html", None);
    assert_eq!(response.status, STATUS_NOT_FOUND);
    assert_eq!(response.status, 404);
    assert_eq!(response.content_type, None);
    assert_eq!(response.body, b"404".to_vec());
}
