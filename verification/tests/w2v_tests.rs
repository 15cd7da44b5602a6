use saldowsd::w2v::{
    first_entry_readable, read_number, read_string, read_w2v_bytes, ByteReader, Error, W2vLoad,
};

fn le(values: &[u32]) -> Vec<u8> {
    let mut out = Vec::new();
    for v in values {
        out.extend_from_slice(&v.to_le_bytes());
    }
    out
}

fn entries(load: W2vLoad) -> Vec<(String, Vec<u32>)> {
    match load {
        W2vLoad::Loaded(t) => {
            let mut e = t.into_entries();
            e.sort();
            e
        }
        W2vLoad::ReserveFailed(_, _) => panic!("reserve failed"),
    }
}

#[test]
fn read_string_stops_after_delimiter() {
    let mut r = ByteReader::new(b"hello world".to_vec());
    assert_eq!(read_string(&mut r, b' ', false).unwrap(), "hello");
    assert_eq!(read_string(&mut r, b' ', false).unwrap(), "worl");
    assert_eq!(read_string(&mut r, b' ', false).unwrap(), "");
}

#[test]
fn read_string_keeps_unicode() {
    let mut r = ByteReader::new("grön äpple".as_bytes().to_vec());
    assert_eq!(read_string(&mut r, b' ', false).unwrap(), "grön");
}

#[test]
fn read_string_rejects_invalid_utf8() {
    let mut r = ByteReader::new(vec![0xff, 0x41, b' ', b'x']);
    match read_string(&mut r, b' ', false) {
        Err(Error::Format(m)) => {
            assert_eq!(m, "Token contains invalid UTF-8: invalid utf-8 sequence of 1 bytes from index 0")
        }
        other => panic!("unexpected {:?}", other),
    }
    assert_eq!(read_string(&mut r, b' ', false).unwrap(), "");
}

#[test]
fn read_string_lossy_replaces_invalid_bytes() {
    let mut r = ByteReader::new(vec![0x41, 0xff, 0x42, b'\n']);
    assert_eq!(read_string(&mut r, b'\n', true).unwrap(), "A\u{FFFD}B");
}

#[test]
fn read_number_reads_decimal() {
    let mut r = ByteReader::new(b"12 +7\n".to_vec());
    assert_eq!(read_number(&mut r, b' ').unwrap(), 12);
    assert_eq!(read_number(&mut r, b'\n').unwrap(), 7);
}

#[test]
fn read_number_reports_bad_component() {
    let mut r = ByteReader::new(b"abc 1".to_vec());
    match read_number(&mut r, b' ') {
        Err(Error::Format(m)) => {
            assert_eq!(m, "Cannot parse shape component 'abc': invalid digit found in string")
        }
        other => panic!("unexpected {:?}", other),
    }
}

#[test]
fn read_number_reports_empty_component() {
    let mut r = ByteReader::new(b" 1".to_vec());
    match read_number(&mut r, b' ') {
        Err(Error::Format(m)) => {
            assert_eq!(m, "Cannot parse shape component '': cannot parse integer from empty string")
        }
        other => panic!("unexpected {:?}", other),
    }
}

#[test]
fn read_number_reports_overflow() {
    let mut r = ByteReader::new(b"99999999999999999999999 ".to_vec());
    match read_number(&mut r, b' ') {
        Err(Error::Format(m)) => assert_eq!(
            m,
            "Cannot parse shape component '99999999999999999999999': number too large to fit in target type"
        ),
        other => panic!("unexpected {:?}", other),
    }
}

#[test]
fn read_number_rejects_negative() {
    let mut r = ByteReader::new(b"-3 ".to_vec());
    assert!(matches!(read_number(&mut r, b' '), Err(Error::Format(_))));
}

#[test]
fn w2v_reads_every_entry() {
    let mut bytes = b"2 3\n".to_vec();
    bytes.extend(b"cat ");
    bytes.extend(le(&[1.0f32.to_bits(), 2.0f32.to_bits(), 0]));
    bytes.extend(b"\ndog ");
    bytes.extend(le(&[7, 8, 9]));
    let got = entries(read_w2v_bytes(bytes, false).unwrap());
    assert_eq!(
        got,
        vec![
            ("cat".to_string(), vec![0x3f80_0000, 0x4000_0000, 0]),
            ("dog".to_string(), vec![7, 8, 9]),
        ]
    );
}

#[test]
fn w2v_later_entry_replaces_earlier() {
    let mut bytes = b"2 1\n".to_vec();
    bytes.extend(b"cat ");
    bytes.extend(le(&[1]));
    bytes.extend(b"\ncat ");
    bytes.extend(le(&[2]));
    let got = entries(read_w2v_bytes(bytes, false).unwrap());
    assert_eq!(got, vec![("cat".to_string(), vec![2])]);
}

#[test]
fn w2v_empty_vocabulary() {
    let got = entries(read_w2v_bytes(b"0 300\n".to_vec(), false).unwrap());
    assert!(got.is_empty());
}

#[test]
fn w2v_ignores_bytes_after_last_entry() {
    let mut bytes = b"1 1\nx ".to_vec();
    bytes.extend(le(&[5]));
    bytes.extend(b"trailing garbage");
    let got = entries(read_w2v_bytes(bytes, false).unwrap());
    assert_eq!(got, vec![("x".to_string(), vec![5])]);
}

#[test]
fn w2v_truncated_vector_is_read_error() {
    let mut bytes = b"1 2\nx ".to_vec();
    bytes.extend(le(&[5]));
    match read_w2v_bytes(bytes, false) {
        Err(Error::Read { desc, error }) => {
            assert_eq!(desc, "Cannot read word embedding");
            assert_eq!(error.kind(), std::io::ErrorKind::UnexpectedEof);
        }
        Err(e) => panic!("unexpected {:?}", e),
        Ok(_) => panic!("expected an error"),
    }
}

#[test]
fn w2v_bad_header_is_format_error() {
    match read_w2v_bytes(b"two 3\n".to_vec(), false) {
        Err(Error::Format(m)) => {
            assert_eq!(m, "Cannot parse shape component 'two': invalid digit found in string")
        }
        Err(e) => panic!("unexpected {:?}", e),
        Ok(_) => panic!("expected an error"),
    }
}

#[test]
fn w2v_normalize_refused_once_first_entry_is_readable() {
    let mut bytes = b"1 1\nx ".to_vec();
    bytes.extend(le(&[5]));
    assert!(first_entry_readable(&bytes));
    assert!(!first_entry_readable(&b"0 1\n".to_vec()));
    assert!(!first_entry_readable(&b"1 2\nx \x01\x00\x00\x00".to_vec()));
    assert!(!first_entry_readable(&b"1 x\n".to_vec()));
}

#[test]
fn w2v_normalize_with_unreadable_first_entry_reports_error() {
    let bytes = b"1 2\nx \x01\x00\x00\x00".to_vec();
    match read_w2v_bytes(bytes, true) {
        Err(Error::Read { desc, .. }) => assert_eq!(desc, "Cannot read word embedding"),
        Err(e) => panic!("unexpected {:?}", e),
        Ok(_) => panic!("expected an error"),
    }
}

#[test]
fn w2v_huge_vocabulary_fails_reservation_with_the_count() {
    let bytes = format!("{} 1\n", usize::MAX).into_bytes();
    match read_w2v_bytes(bytes, false) {
        Ok(W2vLoad::ReserveFailed(n, e)) => {
            assert_eq!(n, usize::MAX);
            assert_eq!(e, hashbrown::TryReserveError::CapacityOverflow);
        }
        Ok(_) => panic!("expected a failed reservation"),
        Err(e) => panic!("unexpected {:?}", e),
    }
}

#[test]
fn error_messages() {
    assert_eq!(Error::Format("bad".to_string()).message(), "Invalid file format bad");
    let e = Error::open_error("m.bin".to_string(), std::io::Error::from(std::io::ErrorKind::NotFound));
    assert_eq!(e.message(), "Failed open file m.bin");
    let e = Error::read_error("Cannot read string".to_string(), std::io::Error::from(std::io::ErrorKind::Other));
    assert_eq!(e.message(), "Cannot read string");
}

#[test]
fn w2v_normalize_without_entries_loads() {
    let got = entries(read_w2v_bytes(b"0 3\n".to_vec(), true).unwrap());
    assert!(got.is_empty());
}

#[test]
fn w2v_words_are_trimmed() {
    let mut bytes = b"1 1\n\n\tx ".to_vec();
    bytes.extend(le(&[5]));
    let got = entries(read_w2v_bytes(bytes, false).unwrap());
    assert_eq!(got, vec![("x".to_string(), vec![5])]);
}

#[test]
fn error_constructors() {
    let e = Error::open_error("m.bin".to_string(), std::io::Error::from(std::io::ErrorKind::NotFound));
    match e {
        Error::Open { path, error } => {
            assert_eq!(path, "m.bin");
            assert_eq!(error.kind(), std::io::ErrorKind::NotFound);
        }
        _ => panic!("wrong variant"),
    }
    let e = Error::read_error("Cannot read string".to_string(), std::io::Error::from(std::io::ErrorKind::Interrupted));
    match e {
        Error::Read { desc, error } => {
            assert_eq!(desc, "Cannot read string");
            assert_eq!(error.kind(), std::io::ErrorKind::Interrupted);
        }
        _ => panic!("wrong variant"),
    }
}

#[test]
fn w2v_non_ascii_words_with_newlines_between_entries() {
    let mut bytes = b"2 2\n".to_vec();
    bytes.extend("grön ".as_bytes());
    bytes.extend(le(&[0.5f32.to_bits(), (-1.0f32).to_bits()]));
    bytes.extend("\näpple ".as_bytes());
    bytes.extend(le(&[3, 4]));
    bytes.push(b'\n');
    let got = entries(read_w2v_bytes(bytes, false).unwrap());
    assert_eq!(
        got,
        vec![
            ("grön".to_string(), vec![0.5f32.to_bits(), (-1.0f32).to_bits()]),
            ("äpple".to_string(), vec![3, 4]),
        ]
    );
}

#[test]
fn w2v_invalid_word_is_format_error() {
    let mut bytes = b"1 1\n".to_vec();
    bytes.extend([0xc3, 0x28, b' ']);
    bytes.extend(le(&[1]));
    match read_w2v_bytes(bytes, false) {
        Err(Error::Format(m)) => {
            assert_eq!(m, "Token contains invalid UTF-8: invalid utf-8 sequence of 1 bytes from index 0")
        }
        Err(e) => panic!("unexpected {:?}", e),
        Ok(_) => panic!("expected an error"),
    }
}
