use tokio_seqpacket::ancillary::layout::{
    checked_align_up, checked_message_space, ALIGNMENT, CREDS_SIZE, FD_SIZE, HEADER_SIZE,
    SCM_CREDENTIALS, SCM_RIGHTS, SOL_SOCKET,
};
use tokio_seqpacket::ancillary::{
    AncillaryMessage, AncillaryMessageReader, AncillaryMessageWriter, SocketCred,
};

#[test]
fn layout_is_the_one_of_the_platform() {
    assert_eq!(HEADER_SIZE, std::mem::size_of::<libc::cmsghdr>());
    assert_eq!(ALIGNMENT, std::mem::size_of::<usize>());
    assert_eq!(FD_SIZE, std::mem::size_of::<libc::c_int>());
    assert_eq!(CREDS_SIZE, std::mem::size_of::<libc::ucred>());
    assert_eq!(SOL_SOCKET, libc::SOL_SOCKET);
    assert_eq!(SCM_RIGHTS, libc::SCM_RIGHTS);
    assert_eq!(SCM_CREDENTIALS, libc::SCM_CREDENTIALS);
    assert_eq!(1u32.to_ne_bytes(), 1u32.to_le_bytes());
}

#[test]
fn padded_sizes() {
    assert_eq!(checked_align_up(0), Some(0));
    assert_eq!(checked_align_up(1), Some(8));
    assert_eq!(checked_align_up(8), Some(8));
    assert_eq!(checked_align_up(9), Some(16));
    assert_eq!(checked_align_up(usize::MAX), None);
    assert_eq!(checked_align_up(usize::MAX - 7), Some(usize::MAX - 7));
    assert_eq!(checked_message_space(0), Some(16));
    assert_eq!(checked_message_space(4), Some(24));
    assert_eq!(checked_message_space(8), Some(24));
    assert_eq!(checked_message_space(12), Some(32));
    assert_eq!(checked_message_space(usize::MAX - 7), None);
}

#[test]
fn new_writer_is_empty() {
    let mut storage = [0u8; 64];
    let writer = AncillaryMessageWriter::new(&mut storage);
    assert_eq!(writer.capacity(), 64);
    assert_eq!(writer.len(), 0);
    assert!(writer.is_empty());
    assert!(writer.as_bytes().is_empty());
}

#[test]
fn add_fds_writes_header_descriptors_and_padding() {
    let mut storage = [0xaau8; 40];
    let mut writer = AncillaryMessageWriter::new(&mut storage);
    assert!(writer.add_fds(&[3]).is_ok());
    assert_eq!(writer.len(), 24);
    assert!(!writer.is_empty());
    let expected: [u8; 24] = [
        20, 0, 0, 0, 0, 0, 0, 0, // length of header and payload
        1, 0, 0, 0, // level
        1, 0, 0, 0, // type
        3, 0, 0, 0, // the descriptor
        0, 0, 0, 0, // padding
    ];
    assert_eq!(writer.as_bytes(), &expected[..]);
    assert_eq!(&storage[..24], &expected[..]);
    assert_eq!(&storage[24..], &[0xaau8; 16][..]);
}

#[test]
fn descriptors_are_written_in_twos_complement() {
    let mut storage = [0u8; 32];
    let mut writer = AncillaryMessageWriter::new(&mut storage);
    assert!(writer.add_fds(&[-2, 0x0102_0304]).is_ok());
    assert_eq!(writer.len(), 24);
    assert_eq!(&storage[16..24], &[0xfe, 0xff, 0xff, 0xff, 4, 3, 2, 1][..]);
    assert_eq!(&storage[16..20], &(-2i32).to_ne_bytes()[..]);
    assert_eq!(&storage[0..8], &24usize.to_ne_bytes()[..]);
}

#[test]
fn add_creds_writes_twelve_bytes_for_each() {
    let mut cred = SocketCred::new();
    assert_eq!((cred.get_pid(), cred.get_uid(), cred.get_gid()), (0, 0, 0));
    cred.set_pid(0x0a0b_0c0d);
    cred.set_uid(1000);
    cred.set_gid(0xffff_fffe);
    assert_eq!(cred.get_pid(), 0x0a0b_0c0d);
    assert_eq!(cred.get_uid(), 1000);
    assert_eq!(cred.get_gid(), 0xffff_fffe);

    let mut storage = [0x55u8; 48];
    let mut writer = AncillaryMessageWriter::new(&mut storage);
    assert!(writer.add_creds(&[cred]).is_ok());
    assert_eq!(writer.len(), 32);
    let expected: [u8; 32] = [
        28, 0, 0, 0, 0, 0, 0, 0, // length of header and payload
        1, 0, 0, 0, // level
        2, 0, 0, 0, // type
        0x0d, 0x0c, 0x0b, 0x0a, // pid
        0xe8, 0x03, 0, 0, // uid
        0xfe, 0xff, 0xff, 0xff, // gid
        0, 0, 0, 0, // padding
    ];
    assert_eq!(&storage[..32], &expected[..]);
    assert_eq!(&storage[32..], &[0x55u8; 16][..]);
}

#[test]
fn messages_follow_each_other() {
    let mut storage = [0u8; 64];
    let mut writer = AncillaryMessageWriter::new(&mut storage);
    assert!(writer.add_fds(&[5, 6, 7]).is_ok());
    assert_eq!(writer.len(), 32);
    assert!(writer.add_fds(&[8]).is_ok());
    assert_eq!(writer.len(), 56);
    assert_eq!(&storage[0..8], &[28, 0, 0, 0, 0, 0, 0, 0][..]);
    assert_eq!(&storage[32..40], &[20, 0, 0, 0, 0, 0, 0, 0][..]);
    assert_eq!(&storage[48..52], &[8, 0, 0, 0][..]);
}

#[test]
fn capacity_rejection_is_atomic() {
    let mut storage = [0xaau8; 23];
    let mut writer = AncillaryMessageWriter::new(&mut storage);
    assert!(writer.add_fds(&[1]).is_err());
    assert_eq!(writer.len(), 0);
    assert!(writer.is_empty());
    assert_eq!(storage, [0xaau8; 23]);
}

#[test]
fn capacity_rejection_keeps_earlier_messages() {
    let mut storage = [0xaau8; 47];
    let mut writer = AncillaryMessageWriter::new(&mut storage);
    assert!(writer.add_fds(&[1, 2]).is_ok());
    assert_eq!(writer.len(), 24);
    let before: Vec<u8> = writer.as_bytes().to_vec();
    assert!(writer.add_fds(&[3]).is_err());
    assert!(writer.add_creds(&[SocketCred::new()]).is_err());
    assert_eq!(writer.len(), 24);
    assert_eq!(writer.as_bytes(), &before[..]);
    assert_eq!(&storage[24..], &[0xaau8; 23][..]);
}

#[test]
fn a_message_that_fits_exactly_is_added() {
    let mut storage = [0u8; 24];
    let mut writer = AncillaryMessageWriter::new(&mut storage);
    assert!(writer.add_fds(&[1, 2]).is_ok());
    assert_eq!(writer.len(), 24);
    assert_eq!(writer.len(), writer.capacity());
    assert!(writer.add_fds(&[]).is_err());
}

#[test]
fn a_message_without_descriptors_is_a_bare_header() {
    let mut storage = [0xaau8; 16];
    let mut writer = AncillaryMessageWriter::new(&mut storage);
    assert!(writer.add_fds(&[]).is_ok());
    assert_eq!(writer.len(), 16);
    assert_eq!(storage, [16, 0, 0, 0, 0, 0, 0, 0, 1, 0, 0, 0, 1, 0, 0, 0]);
}

#[test]
fn owned_descriptors_are_written_and_kept_for_closing() {
    let mut storage = [0xaau8; 64];
    let mut writer = AncillaryMessageWriter::new(&mut storage);
    assert_eq!(writer.take_owned(), Vec::<i32>::new());
    assert!(writer.add_fds(&[3]).is_ok());
    assert!(writer.add_owned_fds(&[10, 11]).is_ok());
    assert_eq!(writer.len(), 48);
    assert!(writer.add_owned_fds(&[12]).is_err());
    assert_eq!(writer.len(), 48);
    assert!(writer.add_owned_fds(&[]).is_ok());
    assert_eq!(writer.len(), 64);
    let expected: [u8; 24] = [
        24, 0, 0, 0, 0, 0, 0, 0, // length of header and payload
        1, 0, 0, 0, // level
        1, 0, 0, 0, // type
        10, 0, 0, 0, 11, 0, 0, 0, // the descriptors
    ];
    assert_eq!(&writer.as_bytes()[24..48], &expected[..]);

    // What was lent and what did not fit is not owned.
    assert_eq!(writer.take_owned(), vec![10, 11]);
    // What was given out once is not given out again.
    assert_eq!(writer.take_owned(), Vec::<i32>::new());
    assert_eq!(writer.len(), 64);
}

#[test]
fn owned_descriptors_stay_owned_when_the_messages_are_cleared() {
    let mut storage = [0u8; 64];
    let mut writer = AncillaryMessageWriter::new(&mut storage);
    assert!(writer.add_owned_fds(&[7]).is_ok());
    writer.clear();
    assert!(writer.is_empty());
    assert!(writer.add_owned_fds(&[8, 9]).is_ok());
    assert!(writer.add_creds(&[SocketCred::new()]).is_ok());
    assert_eq!(writer.take_owned(), vec![7, 8, 9]);
}

#[test]
fn clear_forgets_the_messages_and_keeps_the_bytes() {
    let mut storage = [0u8; 32];
    let mut writer = AncillaryMessageWriter::new(&mut storage);
    assert!(writer.add_fds(&[9]).is_ok());
    writer.clear();
    assert_eq!(writer.len(), 0);
    assert!(writer.is_empty());
    assert_eq!(writer.capacity(), 32);
    assert!(writer.add_fds(&[10, 11]).is_ok());
    assert_eq!(writer.len(), 24);
    assert_eq!(&storage[16..24], &[10, 0, 0, 0, 11, 0, 0, 0][..]);
}

#[test]
fn written_descriptors_are_read_back_in_order() {
    let mut storage = [0xaau8; 64];
    let mut writer = AncillaryMessageWriter::new(&mut storage);
    assert!(writer.add_fds(&[7, 9]).is_ok());
    let used = writer.len();
    assert_eq!(used, 24);

    let mut received = [0u8; 64];
    received[..used].copy_from_slice(&storage[..used]);
    let reader = AncillaryMessageReader::from_received(&mut received, used, false);
    let mut messages = reader.messages();
    match messages.next() {
        Some(AncillaryMessage::FileDescriptors(fds)) => {
            assert_eq!(fds.len(), 2);
            assert!(!fds.is_empty());
            assert_eq!(fds.get(0), Some(7));
            assert_eq!(fds.get(1), Some(9));
            assert_eq!(fds.get(2), None);
        }
        _ => panic!("expected file descriptors"),
    }
    assert!(messages.next().is_none());
}

#[test]
fn written_credentials_are_read_back_in_order() {
    let mut first = SocketCred::new();
    first.set_pid(-7);
    first.set_uid(1);
    first.set_gid(2);
    let mut second = SocketCred::new();
    second.set_pid(4242);
    second.set_uid(0xffff_ffff);
    second.set_gid(0x8000_0000);

    let mut storage = [0u8; 64];
    let mut writer = AncillaryMessageWriter::new(&mut storage);
    assert!(writer.add_creds(&[first, second]).is_ok());
    let used = writer.len();
    assert_eq!(used, 40);

    let reader = AncillaryMessageReader::from_received(&mut storage, used, false);
    let mut messages = reader.messages();
    match messages.next() {
        Some(AncillaryMessage::Credentials(mut creds)) => {
            assert_eq!(creds.len(), 2);
            assert!(!creds.is_empty());
            let read = creds.get(1).expect("second credentials");
            assert_eq!(read.get_pid(), 4242);
            assert_eq!(read.get_uid(), 0xffff_ffff);
            assert_eq!(read.get_gid(), 0x8000_0000);
            assert!(creds.get(2).is_none());
            let read = creds.next().expect("first credentials");
            assert_eq!((read.get_pid(), read.get_uid(), read.get_gid()), (-7, 1, 2));
            assert_eq!(creds.len(), 1);
            assert!(creds.next().is_some());
            assert!(creds.next().is_none());
            assert!(creds.is_empty());
        }
        _ => panic!("expected credentials"),
    }
    assert!(messages.next().is_none());
}
