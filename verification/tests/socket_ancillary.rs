use tokio_seqpacket::ancillary::{AncillaryData, SocketAncillary, SocketCred};

fn message(level: i32, kind: i32, payload: &[u8]) -> Vec<u8> {
    let mut bytes = Vec::new();
    bytes.extend_from_slice(&((16 + payload.len()) as u64).to_le_bytes());
    bytes.extend_from_slice(&level.to_le_bytes());
    bytes.extend_from_slice(&kind.to_le_bytes());
    bytes.extend_from_slice(payload);
    while bytes.len() % 8 != 0 {
        bytes.push(0);
    }
    bytes
}

#[test]
fn new_ancillary_is_empty() {
    let mut storage = [0u8; 128];
    let ancillary = SocketAncillary::new(&mut storage);
    assert_eq!(ancillary.capacity(), 128);
    assert_eq!(ancillary.len(), 0);
    assert!(ancillary.is_empty());
    assert!(!ancillary.truncated());
    assert!(ancillary.as_bytes().is_empty());
    assert!(ancillary.messages().next().is_none());
}

#[test]
fn added_descriptors_are_iterated() {
    let mut storage = [0u8; 64];
    let mut ancillary = SocketAncillary::new(&mut storage);
    assert!(ancillary.add_fds(&[3, 4, 5]));
    assert_eq!(ancillary.len(), 32);
    assert!(!ancillary.is_empty());
    let mut messages = ancillary.messages();
    match messages.next() {
        Some(Ok(AncillaryData::ScmRights(mut fds))) => {
            assert_eq!(fds.next(), Some(3));
            assert_eq!(fds.next(), Some(4));
            assert_eq!(fds.next(), Some(5));
            assert_eq!(fds.next(), None);
            assert_eq!(fds.next(), None);
        }
        _ => panic!("expected file descriptors"),
    }
    assert!(messages.next().is_none());
}

#[test]
fn added_credentials_are_iterated() {
    let mut cred = SocketCred::new();
    cred.set_pid(77);
    cred.set_uid(88);
    cred.set_gid(99);
    let mut storage = [0u8; 64];
    let mut ancillary = SocketAncillary::new(&mut storage);
    assert!(ancillary.add_fds(&[1]));
    assert!(ancillary.add_creds(&[cred]));
    assert_eq!(ancillary.len(), 24 + 32);
    let mut messages = ancillary.messages();
    assert!(matches!(messages.next(), Some(Ok(AncillaryData::ScmRights(_)))));
    match messages.next() {
        Some(Ok(AncillaryData::ScmCredentials(mut creds))) => {
            let read = creds.next().expect("credentials");
            assert_eq!((read.get_pid(), read.get_uid(), read.get_gid()), (77, 88, 99));
            assert!(creds.next().is_none());
        }
        _ => panic!("expected credentials"),
    }
    assert!(messages.next().is_none());
}

#[test]
fn a_message_without_room_is_not_added() {
    let mut storage = [0x33u8; 30];
    let mut ancillary = SocketAncillary::new(&mut storage);
    assert!(ancillary.add_fds(&[1]));
    let before: Vec<u8> = ancillary.as_bytes().to_vec();
    assert!(!ancillary.add_fds(&[2]));
    assert!(!ancillary.add_creds(&[SocketCred::new()]));
    assert_eq!(ancillary.len(), 24);
    assert_eq!(ancillary.as_bytes(), &before[..]);
    assert_eq!(&storage[24..], &[0x33u8; 6][..]);
}

#[test]
fn a_failed_addition_keeps_the_truncation_flag() {
    let mut storage = [0u8; 20];
    let mut ancillary = SocketAncillary::from_received(&mut storage, 0, true);
    assert!(ancillary.truncated());
    assert!(!ancillary.add_fds(&[1, 2]));
    assert!(ancillary.truncated());
    assert!(ancillary.add_fds(&[]));
    assert!(!ancillary.truncated());
}

#[test]
fn an_unrecognized_message_is_given_out_as_it_is() {
    let mut storage = Vec::new();
    storage.extend_from_slice(&message(1, 99, &[1, 2, 3]));
    storage.extend_from_slice(&message(6, 1, &[]));
    storage.extend_from_slice(&message(1, 1, &[8, 0, 0, 0]));
    storage.extend_from_slice(&message(-5, 2, &[0xff; 9]));
    let used = storage.len();
    let ancillary = SocketAncillary::from_received(&mut storage, used, false);
    let mut messages = ancillary.messages();
    match messages.next() {
        Some(Ok(AncillaryData::Other(other))) => {
            assert_eq!((other.cmsg_level(), other.cmsg_type()), (1, 99));
            assert_eq!(other.data(), &[1u8, 2, 3][..]);
        }
        _ => panic!("expected an unrecognized message"),
    }
    match messages.next() {
        Some(Ok(AncillaryData::Other(other))) => {
            assert_eq!((other.cmsg_level(), other.cmsg_type()), (6, 1));
            assert!(other.data().is_empty());
        }
        _ => panic!("expected an unrecognized message"),
    }
    assert!(matches!(messages.next(), Some(Ok(AncillaryData::ScmRights(_)))));
    match messages.next() {
        Some(Ok(AncillaryData::Other(other))) => {
            assert_eq!((other.cmsg_level(), other.cmsg_type()), (-5, 2));
            assert_eq!(other.data(), &[0xffu8; 9][..]);
        }
        _ => panic!("expected an unrecognized message"),
    }
    assert!(messages.next().is_none());
}

#[test]
fn no_message_is_an_error() {
    let mut storage = Vec::new();
    for level in -2..4 {
        for kind in -2..4 {
            storage.extend_from_slice(&message(level, kind, &[7, 0, 0, 0]));
        }
    }
    let used = storage.len();
    let ancillary = SocketAncillary::from_received(&mut storage, used, false);
    let mut messages = ancillary.messages();
    let mut found = 0;
    while let Some(outcome) = messages.next() {
        assert!(outcome.is_ok());
        found += 1;
    }
    assert_eq!(found, 36);
}

#[test]
fn the_buffer_is_given_back() {
    let mut storage = [0x44u8; 40];
    let mut ancillary = SocketAncillary::new(&mut storage);
    assert!(ancillary.add_fds(&[3]));
    let buffer = ancillary.into_buffer();
    assert_eq!(buffer.len(), 40);
    assert_eq!(&buffer[..8], &[20, 0, 0, 0, 0, 0, 0, 0][..]);
    assert_eq!(&buffer[24..], &[0x44u8; 16][..]);
    buffer[0] = 21;
    assert_eq!(storage[0], 21);
}

#[test]
fn received_data_reports_truncation() {
    let mut storage = message(1, 1, &[3, 0, 0, 0]);
    storage.truncate(20);
    let ancillary = SocketAncillary::from_received(&mut storage, 20, true);
    assert!(ancillary.truncated());
    assert_eq!(ancillary.len(), 20);
    match ancillary.messages().next() {
        Some(Ok(AncillaryData::ScmRights(mut fds))) => {
            assert_eq!(fds.next(), Some(3));
            assert_eq!(fds.next(), None);
        }
        _ => panic!("expected file descriptors"),
    }

    let mut storage = [0u8; 8];
    let ancillary = SocketAncillary::from_received(&mut storage, 64, false);
    assert_eq!(ancillary.len(), 8);
    assert!(!ancillary.truncated());
}

#[test]
fn clear_removes_all_values() {
    let mut storage = message(1, 1, &[3, 0, 0, 0]);
    let used = storage.len();
    let mut ancillary = SocketAncillary::from_received(&mut storage, used, true);
    assert!(!ancillary.is_empty());
    ancillary.clear();
    assert!(ancillary.is_empty());
    assert_eq!(ancillary.len(), 0);
    assert!(!ancillary.truncated());
    assert_eq!(ancillary.capacity(), 24);
    assert!(ancillary.messages().next().is_none());
}
