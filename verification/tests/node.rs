//! The interface to Node.js, and the text that the rest of the library reads.

use web_transport::ffi::error::SessionFault;
use web_transport::node::{
    NapiBiStream, NapiConnectOptions, NapiRequest, NapiServer, NapiSession, connect_request,
    request_from, session_error_to_close_info,
};
use web_transport::status::status_code;
use web_transport::text::{chars_of, equal, strip_prefix};
use web_transport::url::ParsedUrl;

#[test]
fn a_close_keeps_its_code() {
    let info = session_error_to_close_info(SessionFault::Closed(4, "bye".to_string()));
    assert_eq!((info.close_code, info.reason.as_str()), (4, "bye"));
    let info = session_error_to_close_info(SessionFault::Other("lost".to_string()));
    assert_eq!((info.close_code, info.reason.as_str()), (0, "lost"));
}

#[test]
fn a_session_remembers_its_close() {
    let mut session = NapiSession::new();
    assert!(session.closed().is_none());
    let first = session.on_closed(SessionFault::Closed(4, "bye".to_string()));
    assert_eq!(first.close_code, 4);
    assert_eq!(session.closed().unwrap().reason, "bye");
    assert_eq!(session.closed().unwrap().close_code, 4);
}

#[test]
fn a_request_offers_protocols() {
    let options = NapiConnectOptions {
        protocols: Some(vec!["a".to_string()]),
    };
    let request = connect_request("https://example.com/x", Some(options)).unwrap();
    assert_eq!(request.url.text, "https://example.com/x");
    assert_eq!(request.protocols, vec!["a".to_string()]);
    let request = connect_request("https://example.com", None).unwrap();
    assert!(request.protocols.is_empty());
    let none = Some(NapiConnectOptions { protocols: None });
    assert!(connect_request("https://example.com", none).unwrap().protocols.is_empty());
    assert_eq!(connect_request("x", None).unwrap_err(), "relative URL without a base");
    assert_eq!(request_from(Err("no".to_string()), None).unwrap_err(), "no");
    let url = ParsedUrl::parse("https://example.com");
    assert_eq!(request_from(url, None).unwrap().url.port, None);
}

#[test]
fn a_server_stops_at_the_end() {
    let mut server = NapiServer { inner: Some('s') };
    let request = server.accepted(Some('q')).unwrap();
    assert_eq!(request.inner, Some('q'));
    assert!(server.accepted::<char>(None).is_none());
    assert!(server.inner.is_none());
    assert!(server.accepted(Some('q')).is_none());
    let mut server = NapiServer { inner: Some('s') };
    server.close();
    assert!(server.inner.is_none());
}

#[test]
fn a_request_is_consumed_once() {
    let mut request = NapiRequest { inner: Some('q') };
    assert_eq!(request.request(), Ok(&'q'));
    assert_eq!(request.ok(), Ok('q'));
    assert_eq!(request.request(), Err("request already consumed".to_string()));
    assert_eq!(request.ok(), Err("request already consumed".to_string()));
    let mut request = NapiRequest { inner: Some('q') };
    assert_eq!(request.reject(403), Ok(('q', 403)));
    assert_eq!(request.reject(403), Err("request already consumed".to_string()));
    let mut request = NapiRequest { inner: Some('q') };
    assert_eq!(
        request.reject(1000),
        Err("invalid status code: invalid status code".to_string())
    );
    assert!(request.inner.is_none());
}

#[test]
fn a_pair_is_taken_once() {
    let mut pair = NapiBiStream::new(1, 'r');
    assert_eq!(pair.take_send(), Ok(1));
    assert_eq!(pair.take_send(), Err("send stream already taken".to_string()));
    assert_eq!(pair.take_recv(), Ok('r'));
    assert_eq!(pair.take_recv(), Err("recv stream already taken".to_string()));
}

#[test]
fn status_codes_have_three_digits() {
    assert_eq!(status_code(100), Ok(100));
    assert_eq!(status_code(999), Ok(999));
    assert!(status_code(99).is_err());
    assert!(status_code(1000).is_err());
}

#[test]
fn text_is_compared_by_characters() {
    assert_eq!(chars_of("aé"), vec!['a', 'é']);
    assert!(equal("aé", "aé") && !equal("a", "b"));
    assert_eq!(strip_prefix("qmux-01.a", "qmux-01."), Some("a"));
    assert_eq!(strip_prefix("qmux", "qmux-01."), None);
}
