use https::util::headers::{parse_u64, HeaderError, WwwAuthenticate, XLastModified, XOcMTime};

#[test]
fn header_names() {
    assert_eq!(WwwAuthenticate::header_name(), "WWW-Authenticate");
    assert_eq!(XLastModified::header_name(), "X-Last-Modified");
    assert_eq!(XOcMTime::header_name(), "X-OC-MTime");
}

#[test]
fn www_authenticate_is_written_as_it_is() {
    assert_eq!(WwwAuthenticate("basic".to_string()).fmt_header(), "basic");
}

#[test]
fn x_last_modified_takes_one_decimal_number() {
    assert_eq!(
        XLastModified::parse_header(&vec![b"1700000000000".to_vec()]),
        Ok(XLastModified(1_700_000_000_000))
    );
    assert_eq!(XLastModified::parse_header(&vec![b"0".to_vec()]), Ok(XLastModified(0)));
    assert_eq!(XLastModified::parse_header(&vec![b"+12".to_vec()]), Ok(XLastModified(12)));
    assert_eq!(XLastModified::parse_header(&vec![b"007".to_vec()]), Ok(XLastModified(7)));
}

#[test]
fn x_last_modified_refuses_anything_else() {
    assert_eq!(XLastModified::parse_header(&vec![]), Err(HeaderError::Header));
    assert_eq!(
        XLastModified::parse_header(&vec![b"1".to_vec(), b"2".to_vec()]),
        Err(HeaderError::Header)
    );
    assert_eq!(XLastModified::parse_header(&vec![b"".to_vec()]), Err(HeaderError::Header));
    assert_eq!(XLastModified::parse_header(&vec![b"+".to_vec()]), Err(HeaderError::Header));
    assert_eq!(XLastModified::parse_header(&vec![b"-1".to_vec()]), Err(HeaderError::Header));
    assert_eq!(XLastModified::parse_header(&vec![b"12a".to_vec()]), Err(HeaderError::Header));
    assert_eq!(XLastModified::parse_header(&vec![b" 12".to_vec()]), Err(HeaderError::Header));
    assert_eq!(XLastModified::parse_header(&vec![vec![0xff, 0x31]]), Err(HeaderError::Header));
}

#[test]
fn x_oc_mtime_takes_one_decimal_number() {
    assert_eq!(XOcMTime::parse_header(&vec![b"1700000000".to_vec()]), Ok(XOcMTime(1_700_000_000)));
    assert_eq!(XOcMTime::parse_header(&vec![b"x".to_vec()]), Err(HeaderError::Header));
    assert_eq!(XOcMTime::parse_header(&vec![]), Err(HeaderError::Header));
}

#[test]
fn parse_u64_at_the_edge_of_64_bits() {
    assert_eq!(parse_u64(&b"18446744073709551615".to_vec()), Some(u64::MAX));
    assert_eq!(parse_u64(&b"18446744073709551616".to_vec()), None);
    assert_eq!(parse_u64(&b"99999999999999999999999".to_vec()), None);
    assert_eq!(parse_u64(&b"00000000000000000000000001".to_vec()), Some(1));
}

#[test]
fn parse_u64_agrees_with_the_standard_library() {
    for text in ["", "+", "-", "0", "+0", "-0", "42", "4 2", "١٢", "1e3", "0x10", "18446744073709551615", "18446744073709551616"] {
        assert_eq!(parse_u64(&text.as_bytes().to_vec()), text.parse::<u64>().ok(), "{:?}", text);
    }
}
