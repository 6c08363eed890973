use ht::command::{Command, InputSeq};
use ht::hub::{Action, Arrival, Hub, Reason, CHANNEL_CAPACITY, CLIENT_CAPACITY};
use ht::keys::encode_keys;
use ht::session::{Client, Event, Session};
use tokio::sync::broadcast::error::TryRecvError;

fn hub(no_exit: bool) -> Hub {
    Hub::new(Session::new(80, 24, 1), no_exit)
}

fn keys(names: &[&str]) -> Command {
    Command::Input(encode_keys(&names.iter().map(|name| name.to_string()).collect()))
}

#[test]
fn channel_capacities() {
    assert_eq!(CHANNEL_CAPACITY, 1024);
    assert_eq!(CLIENT_CAPACITY, 1);
}

#[test]
fn echo_round_trip() {
    let mut hub = hub(false);
    let (_, mut rx) = hub.session().subscribe().into_parts();
    let input = Command::Input(vec![InputSeq::Standard("echo hi\n".to_string())]);
    assert_eq!(
        hub.step(Arrival::Command(Some(input))),
        Action::SendInput(b"echo hi\n".to_vec())
    );
    assert_eq!(
        hub.step(Arrival::Output(Some(b"echo hi\r\nhi\r\n".to_vec()))),
        Action::Continue
    );
    match rx.try_recv() {
        Ok(Event::Output(_, data)) => assert!(data.contains("hi\r\n")),
        other => panic!("not output: {:?}", other),
    }
    assert_eq!(hub.step(Arrival::Command(Some(Command::Snapshot))), Action::Continue);
    match rx.try_recv() {
        Ok(Event::Snapshot(cols, rows, _, text)) => {
            assert_eq!((cols, rows), (80, 24));
            assert!(text.lines().nth(1).unwrap().starts_with("hi "));
        }
        other => panic!("not a snapshot: {:?}", other),
    }
}

#[test]
fn cursor_key_mode_switch() {
    let mut hub = hub(false);
    assert_eq!(
        hub.step(Arrival::Command(Some(keys(&["i"])))),
        Action::SendInput(b"i".to_vec())
    );
    assert_eq!(
        hub.step(Arrival::Command(Some(keys(&["Left"])))),
        Action::SendInput(b"\x1b[D".to_vec())
    );
    assert_eq!(hub.step(Arrival::Output(Some(b"\x1b[?1h".to_vec()))), Action::Continue);
    assert_eq!(
        hub.step(Arrival::Command(Some(keys(&["Left"])))),
        Action::SendInput(b"\x1bOD".to_vec())
    );
    assert_eq!(
        hub.step(Arrival::Command(Some(keys(&["a", "Up", "C-Left", "End"])))),
        Action::SendInput(b"a\x1bOA\x1b[1;5D\x1bOF".to_vec())
    );
    assert_eq!(hub.step(Arrival::Output(Some(b"\x1b[?1l".to_vec()))), Action::Continue);
    assert_eq!(
        hub.step(Arrival::Command(Some(keys(&["Left"])))),
        Action::SendInput(b"\x1b[D".to_vec())
    );
}

#[test]
fn modifier_permutations_through_the_hub() {
    let mut hub = hub(false);
    for name in ["C-A-S-Left", "S-A-C-Left", "A-S-C-Left"] {
        assert_eq!(
            hub.step(Arrival::Command(Some(keys(&[name])))),
            Action::SendInput(b"\x1b[1;8D".to_vec())
        );
    }
}

#[test]
fn resize_command_propagates() {
    let mut hub = hub(false);
    let (_, mut rx) = hub.session().subscribe().into_parts();
    assert_eq!(
        hub.step(Arrival::Command(Some(Command::Resize(100, 30)))),
        Action::Continue
    );
    assert_eq!(hub.step(Arrival::Command(Some(Command::Snapshot))), Action::Continue);
    match rx.try_recv() {
        Ok(Event::Resize(_, cols, rows)) => assert_eq!((cols, rows), (100, 30)),
        other => panic!("not a resize: {:?}", other),
    }
    match rx.try_recv() {
        Ok(Event::Snapshot(cols, rows, ..)) => assert_eq!((cols, rows), (100, 30)),
        other => panic!("not a snapshot: {:?}", other),
    }
    assert_eq!(rx.try_recv(), Err(TryRecvError::Empty));
}

#[test]
fn resize_to_an_unusable_size_is_refused() {
    let mut hub = hub(false);
    let (_, mut rx) = hub.session().subscribe().into_parts();
    assert_eq!(
        hub.step(Arrival::Command(Some(Command::Resize(0, 30)))),
        Action::RefuseSize(0, 30)
    );
    assert_eq!(
        hub.step(Arrival::Command(Some(Command::Resize(80, 70000)))),
        Action::RefuseSize(80, 70000)
    );
    assert_eq!(rx.try_recv(), Err(TryRecvError::Empty));
    match hub.session().init_event(0) {
        Event::Init(_, cols, rows, ..) => assert_eq!((cols, rows), (80, 24)),
        other => panic!("not an init event: {:?}", other),
    }
}

#[test]
fn valid_utf8_in_the_output_is_decoded_unchanged() {
    let mut hub = hub(false);
    let (_, mut rx) = hub.session().subscribe().into_parts();
    hub.step(Arrival::Output(Some(vec![0x68, 0x69, 0x0d, 0x0a, 0xe6, 0x97, 0xa5])));
    match rx.try_recv() {
        Ok(Event::Output(_, data)) => assert_eq!(data, "hi\r\n\u{65e5}"),
        other => panic!("not output: {:?}", other),
    }
}

#[test]
fn invalid_utf8_in_the_middle_is_replaced() {
    let mut hub = hub(false);
    let (_, mut rx) = hub.session().subscribe().into_parts();
    hub.step(Arrival::Output(Some(vec![0x61, 0xff, 0x62])));
    hub.step(Arrival::Output(Some(vec![0xe6, 0x97])));
    assert!(matches!(rx.try_recv(), Ok(Event::Output(_, data)) if data == "a\u{fffd}b"));
    assert!(matches!(rx.try_recv(), Ok(Event::Output(_, data)) if data == "\u{fffd}"));
}

#[test]
fn invalid_utf8_in_the_output_is_replaced() {
    let mut hub = hub(false);
    let (_, mut rx) = hub.session().subscribe().into_parts();
    assert_eq!(hub.step(Arrival::Output(Some(vec![0xe2]))), Action::Continue);
    match rx.try_recv() {
        Ok(Event::Output(_, data)) => assert_eq!(data, "\u{fffd}"),
        other => panic!("not output: {:?}", other),
    }
}

#[test]
fn child_exit_triggers_shutdown() {
    let mut hub = hub(false);
    assert_eq!(
        hub.step(Arrival::Output(None)),
        Action::Shutdown(Reason::ProcessExited)
    );
}

#[test]
fn closed_commands_trigger_shutdown() {
    let mut hub = hub(false);
    assert_eq!(
        hub.step(Arrival::Command(None)),
        Action::Shutdown(Reason::CommandsClosed)
    );
}

#[test]
fn end_of_the_api_task_triggers_shutdown() {
    let mut hub = hub(false);
    assert!(hub.watching_api());
    assert_eq!(hub.step(Arrival::ApiDone), Action::Shutdown(Reason::ApiClosed));
    assert!(!hub.watching_api());
}

#[test]
fn hub_that_stays_waits_for_enter() {
    let mut hub = hub(true);
    assert_eq!(
        hub.step(Arrival::Command(Some(keys(&["Enter"])))),
        Action::SendInput(b"\r".to_vec())
    );
    assert_eq!(hub.step(Arrival::Output(None)), Action::AwaitEnter);
    assert_eq!(hub.step(Arrival::Output(None)), Action::Continue);
    assert_eq!(hub.step(Arrival::Command(None)), Action::Continue);
    assert!(hub.watching_api());
    assert_eq!(hub.step(Arrival::ApiDone), Action::Continue);
    assert!(!hub.watching_api());
    assert_eq!(
        hub.step(Arrival::Command(Some(keys(&["a", "Left"])))),
        Action::SendInput(b"a\x1b[D".to_vec())
    );
    assert_eq!(hub.step(Arrival::Command(Some(Command::Snapshot))), Action::Continue);
    assert_eq!(
        hub.step(Arrival::Command(Some(keys(&["a", "Enter"])))),
        Action::Shutdown(Reason::EnterReceived)
    );
}

#[test]
fn line_feed_counts_as_enter() {
    let mut hub = hub(true);
    assert_eq!(hub.step(Arrival::Output(None)), Action::AwaitEnter);
    let input = Command::Input(vec![InputSeq::Standard("echo\n".to_string())]);
    assert_eq!(
        hub.step(Arrival::Command(Some(input))),
        Action::SendInput(b"echo\n".to_vec())
    );
    let input = Command::Input(vec![InputSeq::Cursor("\r".to_string(), "\n".to_string())]);
    assert_eq!(
        hub.step(Arrival::Command(Some(input))),
        Action::SendInput(b"\r".to_vec())
    );
    let input = Command::Input(vec![InputSeq::Standard("\n".to_string())]);
    assert_eq!(
        hub.step(Arrival::Command(Some(input))),
        Action::Shutdown(Reason::EnterReceived)
    );
}

#[test]
fn subscribers_are_let_in() {
    let mut hub = hub(false);
    assert!(hub.serving());
    hub.step(Arrival::Output(Some(b"hello".to_vec())));
    let (tx, mut rx) = tokio::sync::oneshot::channel();
    assert_eq!(hub.step(Arrival::Client(Some(Client(tx)))), Action::Continue);
    let (init, mut events) = rx.try_recv().unwrap().into_parts();
    match init {
        Event::Init(_, cols, rows, pid, _, text) => {
            assert_eq!((cols, rows, pid), (80, 24, 1));
            assert!(text.starts_with("hello "));
        }
        other => panic!("not an init event: {:?}", other),
    }
    hub.step(Arrival::Output(Some(b"more".to_vec())));
    assert!(matches!(events.try_recv(), Ok(Event::Output(_, data)) if data == "more"));
    assert!(hub.serving());
}

#[test]
fn hub_stops_serving_when_no_subscriber_can_come() {
    let mut hub = hub(false);
    assert_eq!(hub.step(Arrival::Client(None)), Action::Continue);
    assert!(!hub.serving());
    assert_eq!(hub.step(Arrival::Command(Some(Command::Snapshot))), Action::Continue);
    assert!(!hub.serving());
}
