use rustyroad::error::Error;
use rustyroad::fetcher::check_status;
use rustyroad::fetcher::response_text;

#[test]
fn check_status_accepts_the_two_hundreds() {
    assert_eq!(check_status(200), Ok(()));
    assert_eq!(check_status(204), Ok(()));
    assert_eq!(check_status(299), Ok(()));
}

#[test]
fn check_status_refuses_the_rest() {
    for status in [0, 100, 199, 300, 301, 404, 500, u16::MAX] {
        assert_eq!(check_status(status), Err(Error::Network));
    }
}

#[test]
fn response_text_decodes_the_body() {
    assert_eq!(response_text(200, "héllo".as_bytes()), Ok("héllo".to_string()));
    assert_eq!(response_text(200, b""), Ok(String::new()));
}

#[test]
fn response_text_refuses_a_body_that_is_not_utf8() {
    assert_eq!(response_text(200, &[0x68, 0xff, 0x69]), Err(Error::Decode));
    assert_eq!(response_text(200, &[0xc3]), Err(Error::Decode));
}

#[test]
fn response_text_looks_at_the_status_first() {
    assert_eq!(response_text(404, &[0xff]), Err(Error::Network));
    assert_eq!(response_text(500, b"fine"), Err(Error::Network));
}
