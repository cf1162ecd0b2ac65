use hyper_wire::header::{Encoding, Headers, Host};

fn host(hostname: &str, port: Option<u16>) -> Host {
    Host { hostname: hostname.to_string(), port }
}

#[test]
fn test_host_leaves_out_usual_ports() {
    assert_eq!(host("a.b", None).to_text(), "a.b");
    assert_eq!(host("a.b", Some(80)).to_text(), "a.b");
    assert_eq!(host("a.b", Some(443)).to_text(), "a.b");
    assert_eq!(host("a.b", Some(0)).to_text(), "a.b:0");
    assert_eq!(host("a.b", Some(65535)).to_text(), "a.b:65535");
    assert_eq!(host("a.b", Some(12346)).to_text(), "a.b:12346");
    assert_eq!(host("a.b", Some(7089)).to_text(), "a.b:7089");
}

#[test]
fn test_no_headers_have_no_lines() {
    let headers = Headers::new();
    assert_eq!(headers.to_text(), "");
    assert!(headers.host().is_none());
    assert!(headers.get_raw("Accept").is_none());
}

#[test]
fn test_lines_of_headers() {
    let mut headers = Headers::new();
    assert!(headers.set_raw("Accept".to_string(), "*/*".to_string()));
    headers.set_host(host("a.b", Some(81)));
    headers.set_content_length(0);
    headers.add_transfer_encoding(Encoding::Gzip);
    headers.add_transfer_encoding(Encoding::Chunked);
    assert!(headers.set_raw("X-Y".to_string(), "z".to_string()));
    assert_eq!(
        headers.to_text(),
        "Host: a.b:81\r\nContent-Length: 0\r\nTransfer-Encoding: gzip, chunked\r\n\
         Accept: */*\r\nX-Y: z\r\n"
    );
    assert_eq!(headers.host(), Some(&host("a.b", Some(81))));
}

#[test]
fn test_header_is_read_back_whatever_its_case() {
    let mut headers = Headers::new();
    assert!(headers.set_raw("Accept".to_string(), "a".to_string()));
    assert!(headers.set_raw("X-@Z[".to_string(), "b".to_string()));
    assert!(headers.set_raw("ACCEPT".to_string(), "c".to_string()));
    assert_eq!(headers.get_raw("accept"), Some(&"c".to_string()));
    assert_eq!(headers.get_raw("x-@z["), Some(&"b".to_string()));
    assert_eq!(headers.get_raw("x-`z{"), None);
    assert_eq!(headers.to_text(), "ACCEPT: c\r\nX-@Z[: b\r\n");
}

#[test]
fn test_typed_headers_are_not_set_by_name() {
    let mut headers = Headers::new();
    assert!(!headers.set_raw("host".to_string(), "a".to_string()));
    assert!(!headers.set_raw("CONTENT-length".to_string(), "1".to_string()));
    assert!(!headers.set_raw("Transfer-Encoding".to_string(), "gzip".to_string()));
    assert!(headers.set_raw("Hostess".to_string(), "b".to_string()));
    assert_eq!(headers.to_text(), "Hostess: b\r\n");
}
