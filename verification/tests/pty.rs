use ht::pty::{
    on_read, on_read_result, shell_args, Driver, Flow, ReadStep, WriteStep, EINTR, EPIPE,
    READ_BUF_SIZE, SHELL, TERM,
};
use std::io::{Error, ErrorKind};

#[test]
fn new_driver_has_nothing_to_write() {
    let driver = Driver::new();
    assert!(!driver.wants_write());
    assert_eq!(driver.pending(), b"");
    assert_eq!(READ_BUF_SIZE, 131072);
}

#[test]
fn input_is_queued_in_order() {
    let mut driver = Driver::new();
    assert_eq!(driver.on_input(Some(b"ab".to_vec())), Flow::Continue);
    assert_eq!(driver.on_input(Some(b"cd".to_vec())), Flow::Continue);
    assert!(driver.wants_write());
    assert_eq!(driver.pending(), b"abcd");
}

#[test]
fn closed_input_stops_the_driver() {
    let mut driver = Driver::new();
    driver.on_input(Some(b"ab".to_vec()));
    assert_eq!(driver.on_input(None), Flow::Finish);
    assert_eq!(driver.pending(), b"ab");
}

#[test]
fn partial_write_leaves_the_rest() {
    let mut driver = Driver::new();
    driver.on_input(Some(b"abcdef".to_vec()));
    assert_eq!(driver.on_write(Some(2)), WriteStep::Again);
    assert_eq!(driver.pending(), b"cdef");
    assert_eq!(driver.on_write(Some(3)), WriteStep::Again);
    assert_eq!(driver.pending(), b"f");
    assert_eq!(driver.on_write(Some(1)), WriteStep::Drained);
    assert_eq!(driver.pending(), b"");
    assert!(!driver.wants_write());
}

#[test]
fn blocked_write_keeps_the_input() {
    let mut driver = Driver::new();
    driver.on_input(Some(b"abc".to_vec()));
    assert_eq!(driver.on_write(Some(1)), WriteStep::Again);
    assert_eq!(driver.on_write(None), WriteStep::Blocked);
    assert_eq!(driver.pending(), b"bc");
    assert!(driver.wants_write());
}

#[test]
fn write_of_nothing_stops_the_driver() {
    let mut driver = Driver::new();
    driver.on_input(Some(b"abc".to_vec()));
    assert_eq!(driver.on_write(Some(0)), WriteStep::Finish);
    assert_eq!(driver.pending(), b"abc");
}

#[test]
fn read_bytes_are_sent_on() {
    let buf = b"hello world";
    assert_eq!(on_read(buf, Some(5)), ReadStep::Forward(b"hello".to_vec()));
    assert_eq!(on_read(buf, Some(11)), ReadStep::Forward(b"hello world".to_vec()));
}

#[test]
fn end_of_output_stops_the_driver() {
    assert_eq!(on_read(b"hello", Some(0)), ReadStep::Finish);
}

#[test]
fn nothing_to_read_is_a_wait() {
    assert_eq!(on_read(b"hello", None), ReadStep::Blocked);
}

#[test]
fn child_is_run_by_the_shell() {
    assert_eq!(
        shell_args("echo hi"),
        Some(vec!["/bin/sh".to_string(), "-c".to_string(), "echo hi".to_string()])
    );
    assert_eq!(
        shell_args(""),
        Some(vec!["/bin/sh".to_string(), "-c".to_string(), "".to_string()])
    );
}

#[test]
fn child_environment() {
    assert_eq!(SHELL, "/bin/sh");
    assert_eq!(TERM, "xterm-256color");
}

#[test]
fn command_with_nul_cannot_be_run() {
    assert_eq!(shell_args("echo\0hi"), None);
    assert_eq!(shell_args("\0"), None);
}

#[test]
fn error_codes() {
    assert_eq!(EPIPE, 32);
    assert_eq!(EINTR, 4);
}

#[test]
fn broken_pipe_on_write_stops_the_driver() {
    let mut driver = Driver::new();
    driver.on_input(Some(b"abc".to_vec()));
    assert!(matches!(
        driver.on_write_result(Err(Error::from_raw_os_error(32))),
        Ok(WriteStep::Finish)
    ));
    assert_eq!(driver.pending(), b"abc");
}

#[test]
fn interrupted_write_is_made_again() {
    let mut driver = Driver::new();
    driver.on_input(Some(b"abc".to_vec()));
    assert!(matches!(
        driver.on_write_result(Err(Error::from_raw_os_error(4))),
        Ok(WriteStep::Again)
    ));
    assert_eq!(driver.pending(), b"abc");
    assert!(matches!(driver.on_write_result(Ok(Some(3))), Ok(WriteStep::Drained)));
    assert_eq!(driver.pending(), b"");
}

#[test]
fn other_failed_write_is_a_failure() {
    let mut driver = Driver::new();
    driver.on_input(Some(b"abc".to_vec()));
    match driver.on_write_result(Err(Error::from_raw_os_error(9))) {
        Err(e) => assert_eq!(e.raw_os_error(), Some(9)),
        other => panic!("{:?}", other),
    }
    match driver.on_write_result(Err(Error::new(ErrorKind::Other, "broken"))) {
        Err(e) => assert_eq!(e.to_string(), "broken"),
        other => panic!("{:?}", other),
    }
    match driver.on_write_result(Err(Error::from(ErrorKind::BrokenPipe))) {
        Err(e) => assert_eq!(e.kind(), ErrorKind::BrokenPipe),
        other => panic!("{:?}", other),
    }
    assert_eq!(driver.pending(), b"abc");
}

#[test]
fn write_that_did_not_fail_is_looked_at_as_before() {
    let mut driver = Driver::new();
    driver.on_input(Some(b"abcdef".to_vec()));
    assert!(matches!(driver.on_write_result(Ok(Some(2))), Ok(WriteStep::Again)));
    assert_eq!(driver.pending(), b"cdef");
    assert!(matches!(driver.on_write_result(Ok(None)), Ok(WriteStep::Blocked)));
    assert_eq!(driver.pending(), b"cdef");
    assert!(matches!(driver.on_write_result(Ok(Some(0))), Ok(WriteStep::Finish)));
    assert!(matches!(driver.on_write_result(Ok(Some(4))), Ok(WriteStep::Drained)));
    assert_eq!(driver.pending(), b"");
}

#[test]
fn interrupted_read_is_made_again() {
    assert!(matches!(
        on_read_result(b"hello", Err(Error::from_raw_os_error(4))),
        Ok(ReadStep::Again)
    ));
}

#[test]
fn other_failed_read_is_a_failure() {
    match on_read_result(b"hello", Err(Error::from_raw_os_error(32))) {
        Err(e) => assert_eq!(e.raw_os_error(), Some(32)),
        other => panic!("{:?}", other),
    }
    match on_read_result(b"hello", Err(Error::from_raw_os_error(9))) {
        Err(e) => assert_eq!(e.raw_os_error(), Some(9)),
        other => panic!("{:?}", other),
    }
    match on_read_result(b"hello", Err(Error::from(ErrorKind::Interrupted))) {
        Err(e) => assert_eq!(e.kind(), ErrorKind::Interrupted),
        other => panic!("{:?}", other),
    }
}

#[test]
fn read_that_did_not_fail_is_looked_at_as_before() {
    match on_read_result(b"hello", Ok(Some(2))) {
        Ok(step) => assert_eq!(step, ReadStep::Forward(b"he".to_vec())),
        other => panic!("{:?}", other),
    }
    assert!(matches!(on_read_result(b"hello", Ok(Some(0))), Ok(ReadStep::Finish)));
    assert!(matches!(on_read_result(b"hello", Ok(None)), Ok(ReadStep::Blocked)));
}

#[test]
fn end_of_output_by_io_error_stops_the_driver() {
    let outcome = ht::nbio::read(Err(Error::from_raw_os_error(5)));
    assert!(matches!(on_read_result(b"hello", outcome), Ok(ReadStep::Finish)));
    let outcome = ht::nbio::write(Err(Error::from_raw_os_error(32)));
    let mut driver = Driver::new();
    driver.on_input(Some(b"abc".to_vec()));
    assert!(matches!(driver.on_write_result(outcome), Ok(WriteStep::Finish)));
}
