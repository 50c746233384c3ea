use tokio_seqpacket::address::{AddressError, AF_LOCAL};
use tokio_seqpacket::io::OsError;
use tokio_seqpacket::ucred::{get_peer_cred, get_peer_eid};
use tokio_seqpacket::{address_path, UCred};

#[test]
fn credentials_keep_their_identifiers() {
    let cred = UCred::new(Some(4711), 1000, 100);
    assert_eq!(cred.pid(), Some(4711));
    assert_eq!(cred.uid(), 1000);
    assert_eq!(cred.gid(), 100);
    let cred = UCred::new(None, u32::MAX, 0);
    assert_eq!(cred.pid(), None);
    assert_eq!(cred.uid(), u32::MAX);
    assert_eq!(cred.gid(), 0);
}

#[test]
fn peer_credentials_are_there_when_the_query_returned_zero() {
    assert_eq!(get_peer_cred(0, 12, 34, 56, 9), Ok(UCred::new(Some(12), 34, 56)));
    assert_eq!(UCred::from_socket_peer(0, 12, 34, 56, 0), Ok(UCred::new(Some(12), 34, 56)));
}

#[test]
fn a_failed_query_gives_the_error_of_the_system() {
    assert_eq!(get_peer_cred(-1, 12, 34, 56, 9), Err(OsError { code: 9 }));
    assert_eq!(get_peer_cred(1, 0, 0, 0, 107), Err(OsError { code: 107 }));
    assert_eq!(UCred::from_socket_peer(-1, 0, 0, 0, 88), Err(OsError { code: 88 }));
}

#[test]
fn a_platform_that_does_not_tell_the_process_gives_none() {
    assert_eq!(get_peer_eid(0, 34, 56, 9), Ok(UCred::new(None, 34, 56)));
    assert_eq!(get_peer_eid(0, 34, 56, 9).map(|cred| cred.pid()), Ok(None));
    assert_eq!(get_peer_eid(-1, 34, 56, 13), Err(OsError { code: 13 }));
}

#[test]
fn the_family_is_the_local_one() {
    assert_eq!(AF_LOCAL as i32, libc::AF_LOCAL);
}

#[test]
fn a_path_is_given_without_its_trailing_null_byte() {
    assert_eq!(address_path(AF_LOCAL, b"/run/foo.sock\0"), Ok(&b"/run/foo.sock"[..]));
    assert_eq!(address_path(AF_LOCAL, b"/run/foo.sock"), Ok(&b"/run/foo.sock"[..]));
    assert_eq!(address_path(AF_LOCAL, b"a\0\0"), Ok(&b"a\0"[..]));
    assert_eq!(address_path(AF_LOCAL, b""), Ok(&b""[..]));
}

/// A name in the abstract namespace of 63 bytes and the given suffix.
fn abstract_name(suffix: &str) -> Vec<u8> {
    let mut buffer = vec![0u8; 63];
    let mut state: u32 = 0x2545_f491;
    for byte in &mut buffer[1..] {
        state = state.wrapping_mul(1_664_525).wrapping_add(1_013_904_223);
        let c = ((state >> 24) % (10 + 26 + 26)) as u8;
        if c < 10 {
            *byte = b'0' + c;
        } else if c < 10 + 26 {
            *byte = b'A' + c - 10;
        } else {
            *byte = b'a' + c - 10 - 26;
        }
    }
    buffer.extend(suffix.bytes());
    buffer
}

/// A name that does not end in a null byte is given whole.
#[test]
fn a_name_without_null_byte_is_kept() {
    let name = abstract_name("\x01");
    assert!(name.ends_with(&[1]), "{name:?}");
    assert_eq!(name.len(), 64);
    assert_eq!(address_path(AF_LOCAL, &name), Ok(&name[..]));
}

/// A name that ends in a null byte is given without that byte, whatever
/// its first byte is.
#[test]
fn a_name_ending_with_null_byte_loses_that_byte() {
    let name = abstract_name("\x00");
    assert!(name.ends_with(&[0]), "{name:?}");
    assert_eq!(name.len(), 64);
    assert_eq!(address_path(AF_LOCAL, &name), Ok(&name[..63]));
}

#[test]
fn at_most_one_null_byte_is_left_out() {
    assert_eq!(address_path(AF_LOCAL, b"\0"), Ok(&b""[..]));
    assert_eq!(address_path(AF_LOCAL, b"\0\0"), Ok(&b"\0"[..]));
    assert_eq!(address_path(AF_LOCAL, b"\0a\0"), Ok(&b"\0a"[..]));
    assert_eq!(address_path(AF_LOCAL, b"\0abstract"), Ok(&b"\0abstract"[..]));
    assert_eq!(address_path(AF_LOCAL, b"a\0b\0\0"), Ok(&b"a\0b\0"[..]));
}

#[test]
fn an_address_of_another_family_has_no_path() {
    assert_eq!(address_path(2, b"/run/foo.sock"), Err(AddressError::NotLocal { family: 2 }));
    assert_eq!(address_path(0, b""), Err(AddressError::NotLocal { family: 0 }));
}
