use std::cell::RefCell;
use game_runtime::transport::{
    register_stream_response_audit, response_headers_for_audit, stream_response_audit,
    unregister_stream_response_audit, StreamResponseAudit, StreamResponseAudits,
};

struct Recorder {
    name: &'static str,
    seen: RefCell<Vec<u8>>,
}

impl StreamResponseAudit for Recorder {
    fn record_response_headers(&self, headers: &[u8]) {
        self.seen.borrow_mut().extend_from_slice(headers);
    }

    fn record_response_chunk(&self, chunk: &[u8]) {
        self.seen.borrow_mut().extend_from_slice(chunk);
    }
}

fn recorder(name: &'static str) -> Recorder {
    Recorder {
        name,
        seen: RefCell::new(Vec::new()),
    }
}

#[test]
fn registered_audits_are_found_by_thread_until_unregistered() {
    let mut audits = StreamResponseAudits::new();
    register_stream_response_audit(&mut audits, "thread-1".to_string(), recorder("first"));
    register_stream_response_audit(&mut audits, "thread-2".to_string(), recorder("second"));
    assert_eq!(stream_response_audit(&audits, Some("thread-1")).map(|a| a.name), Some("first"));
    register_stream_response_audit(&mut audits, "thread-1".to_string(), recorder("replaced"));
    assert_eq!(stream_response_audit(&audits, Some("thread-1")).map(|a| a.name), Some("replaced"));
    unregister_stream_response_audit(&mut audits, "thread-1");
    assert!(stream_response_audit(&audits, Some("thread-1")).is_none());
    assert_eq!(stream_response_audit(&audits, Some("thread-2")).map(|a| a.name), Some("second"));
    assert!(stream_response_audit(&audits, None).is_none());
    unregister_stream_response_audit(&mut audits, "unknown");
    let audit = stream_response_audit(&audits, Some("thread-2")).expect("audit");
    audit.record_response_chunk(b"data");
    assert_eq!(audit.seen.borrow().as_slice(), b"data");
}

#[test]
fn header_block_lists_each_header_on_its_own_line() {
    let headers = vec![
        (b"content-type".to_vec(), b"text/event-stream".to_vec()),
        (b"x-request-id".to_vec(), b"abc".to_vec()),
    ];
    assert_eq!(
        response_headers_for_audit(&headers),
        b"content-type: text/event-stream\r\nx-request-id: abc\r\n".to_vec()
    );
    assert!(response_headers_for_audit(&Vec::new()).is_empty());
}
