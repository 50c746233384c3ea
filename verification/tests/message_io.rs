use tokio_seqpacket::check_returned_size;
use tokio_seqpacket::io::{
    control_truncated, Direction, IoAction, IoEvent, IoState, MessageIo, OsError, EAGAIN,
    MSG_CMSG_CLOEXEC, MSG_CTRUNC, MSG_NOSIGNAL, RECV_MSG_DEFAULT_FLAGS, SEND_MSG_DEFAULT_FLAGS,
};

const EBADF: i32 = 9;
const ECONNRESET: i32 = 104;

#[test]
fn numbers_are_those_of_the_platform() {
    assert_eq!(EAGAIN, libc::EAGAIN);
    assert_eq!(EAGAIN, libc::EWOULDBLOCK);
    assert_eq!(MSG_CTRUNC, libc::MSG_CTRUNC);
    assert_eq!(MSG_NOSIGNAL, libc::MSG_NOSIGNAL);
    assert_eq!(MSG_CMSG_CLOEXEC, libc::MSG_CMSG_CLOEXEC);
    assert_eq!(SEND_MSG_DEFAULT_FLAGS, libc::MSG_NOSIGNAL);
    assert_eq!(RECV_MSG_DEFAULT_FLAGS, libc::MSG_NOSIGNAL | libc::MSG_CMSG_CLOEXEC);
    assert_eq!(EBADF, libc::EBADF);
    assert_eq!(ECONNRESET, libc::ECONNRESET);
    assert_eq!(
        std::io::Error::from_raw_os_error(EAGAIN).kind(),
        std::io::ErrorKind::WouldBlock
    );
}

#[test]
fn a_negative_size_is_the_error() {
    assert_eq!(check_returned_size(-1, EBADF), Err(OsError { code: EBADF }));
    assert_eq!(check_returned_size(isize::MIN, EAGAIN), Err(OsError { code: EAGAIN }));
    assert_eq!(check_returned_size(0, EBADF), Ok(0));
    assert_eq!(check_returned_size(29, 0), Ok(29));
    assert_eq!(check_returned_size(isize::MAX, 5), Ok(isize::MAX as usize));
}

#[test]
fn os_error_keeps_its_number() {
    let error = OsError::from_raw_os_error(ECONNRESET);
    assert_eq!(error.raw_os_error(), ECONNRESET);
    assert!(!error.is_would_block());
    assert!(OsError::from_raw_os_error(EAGAIN).is_would_block());
}

#[test]
fn the_truncation_flag_is_read_from_the_message_flags() {
    assert!(!control_truncated(0));
    assert!(control_truncated(MSG_CTRUNC));
    assert!(control_truncated(MSG_CTRUNC | 0x20));
    assert!(!control_truncated(0x20 | 0x40));
    assert!(control_truncated(-1));
}

#[test]
fn a_send_that_succeeds_at_once_is_over() {
    let mut io = MessageIo::send();
    assert_eq!(io.action(), IoAction::Attempt);
    assert!(!io.is_terminal());
    assert_eq!(io.result(), None);
    assert_eq!(io.on_event(IoEvent::Attempted(Ok(6))), IoAction::Return(Ok(6)));
    assert!(io.is_terminal());
    assert_eq!(io.result(), Some(Ok(6)));
    assert_eq!(io.action(), IoAction::Return(Ok(6)));
}

#[test]
fn a_send_that_would_block_waits_for_writability_and_tries_again() {
    let mut io = MessageIo::send();
    for _ in 0..1000 {
        assert_eq!(
            io.on_event(IoEvent::Attempted(Err(OsError { code: EAGAIN }))),
            IoAction::Wait(Direction::Write)
        );
        assert!(!io.is_terminal());
        assert_eq!(io.on_event(IoEvent::Ready(Ok(()))), IoAction::Attempt);
    }
    assert_eq!(io.on_event(IoEvent::Attempted(Ok(29))), IoAction::Return(Ok(29)));
    assert_eq!(io.result(), Some(Ok(29)));
}

#[test]
fn a_receive_waits_for_readability() {
    let mut io = MessageIo::recv();
    assert_eq!(io.action(), IoAction::Attempt);
    assert_eq!(
        io.on_event(IoEvent::Attempted(Err(OsError { code: EAGAIN }))),
        IoAction::Wait(Direction::Read)
    );
    assert_eq!(io.action(), IoAction::Wait(Direction::Read));
    assert_eq!(io.on_event(IoEvent::Ready(Ok(()))), IoAction::Attempt);
    assert_eq!(io.on_event(IoEvent::Attempted(Ok(0))), IoAction::Return(Ok(0)));
}

#[test]
fn a_fatal_error_ends_the_operation_with_its_number() {
    let mut io = MessageIo::new(Direction::Write);
    let error = OsError { code: ECONNRESET };
    assert_eq!(io.on_event(IoEvent::Attempted(Err(error))), IoAction::Return(Err(error)));
    assert!(io.is_terminal());
    assert_eq!(io.result(), Some(Err(error)));
}

#[test]
fn a_failed_wait_ends_the_operation_with_its_number() {
    let mut io = MessageIo::recv();
    io.on_event(IoEvent::Attempted(Err(OsError { code: EAGAIN })));
    let error = OsError { code: EBADF };
    assert_eq!(io.on_event(IoEvent::Ready(Err(error))), IoAction::Return(Err(error)));
    assert_eq!(io.result(), Some(Err(error)));
}

#[test]
fn an_operation_that_is_over_stays_over() {
    let mut io = MessageIo::send();
    io.on_event(IoEvent::Attempted(Ok(3)));
    assert_eq!(io.on_event(IoEvent::Attempted(Ok(4))), IoAction::Return(Ok(3)));
    assert_eq!(
        io.on_event(IoEvent::Attempted(Err(OsError { code: EBADF }))),
        IoAction::Return(Ok(3))
    );
    assert_eq!(io.on_event(IoEvent::Ready(Ok(()))), IoAction::Return(Ok(3)));
    assert_eq!(io.result(), Some(Ok(3)));
}

#[test]
fn an_event_that_was_not_asked_for_changes_nothing() {
    let mut io = MessageIo::send();
    assert_eq!(io.on_event(IoEvent::Ready(Ok(()))), IoAction::Attempt);
    assert_eq!(io.on_event(IoEvent::Ready(Err(OsError { code: EBADF }))), IoAction::Attempt);
    io.on_event(IoEvent::Attempted(Err(OsError { code: EAGAIN })));
    assert_eq!(io.on_event(IoEvent::Attempted(Ok(1))), IoAction::Wait(Direction::Write));
    assert!(!io.is_terminal());
}

#[test]
fn states_compare_by_value() {
    assert_eq!(IoState::Terminal(Ok(1)), IoState::Terminal(Ok(1)));
    assert_ne!(IoState::AttemptIo, IoState::AwaitReadiness);
    assert_ne!(Direction::Read, Direction::Write);
}
