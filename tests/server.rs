use esp_idf_svc::bytes_order::compare_bytes;
use esp_idf_svc::server::{status_line, Configuration, HttpdConfig, ResponseHead};

#[test]
fn default_configuration_ports() {
    let conf = Configuration::default();
    assert_eq!(conf.http_port, 80);
    assert_eq!(conf.https_port, 443);
}

#[test]
fn httpd_config_with_tls() {
    let conf = Configuration { http_port: 8080, https_port: 443 };
    let c = HttpdConfig::from(&conf);
    assert_eq!(c.task_priority, 5);
    assert_eq!(c.stack_size, 10240);
    assert_eq!(c.core_id, i32::MAX);
    assert_eq!(c.server_port, 8080);
    assert_eq!(c.ctrl_port, 32768);
    assert_eq!(c.max_open_sockets, 4);
    assert_eq!(c.max_uri_handlers, 8);
    assert_eq!(c.max_resp_headers, 8);
    assert_eq!(c.backlog_conn, 5);
    assert!(c.lru_purge_enable);
    assert_eq!(c.recv_wait_timeout, 5);
    assert_eq!(c.send_wait_timeout, 5);
}

#[test]
fn httpd_config_without_tls() {
    let conf = Configuration { http_port: 80, https_port: 0 };
    let c = HttpdConfig::from(&conf);
    assert_eq!(c.stack_size, 4096);
    assert_eq!(c.max_open_sockets, 7);
    assert!(!c.lru_purge_enable);
    assert_eq!(c.server_port, 80);
}

#[test]
fn status_line_formats() {
    assert_eq!(status_line(200, None), b"200".to_vec());
    assert_eq!(status_line(404, Some(b"Not Found")), b"404 Not Found".to_vec());
    assert_eq!(status_line(0, None), b"0".to_vec());
    assert_eq!(status_line(7, Some(b"")), b"7 ".to_vec());
    assert_eq!(status_line(65535, None), b"65535".to_vec());
}

#[test]
fn new_response_head() {
    let head = ResponseHead::new();
    assert_eq!(head.status(), 200);
    assert_eq!(head.c_status(), Some(b"200\0".to_vec()));
    assert_eq!(head.c_headers(), Some(vec![]));
}

#[test]
fn status_and_message() {
    let mut head = ResponseHead::new();
    head.set_status(404);
    head.set_status_message("Not Found");
    assert_eq!(head.status(), 404);
    assert_eq!(head.c_status(), Some(b"404 Not Found\0".to_vec()));
}

#[test]
fn status_message_with_nul_is_refused() {
    let mut head = ResponseHead::new();
    head.set_status_message("bad\0message");
    assert_eq!(head.c_status(), None);
}

#[test]
fn headers_sorted_by_name() {
    let mut head = ResponseHead::new();
    head.set_header("X-B", "2");
    head.set_header("Content-Type", "text/html");
    head.set_header("X-A", "1");
    head.set_header("X", "0");
    let expected = vec![
        (b"Content-Type\0".to_vec(), b"text/html\0".to_vec()),
        (b"X\0".to_vec(), b"0\0".to_vec()),
        (b"X-A\0".to_vec(), b"1\0".to_vec()),
        (b"X-B\0".to_vec(), b"2\0".to_vec()),
    ];
    assert_eq!(head.c_headers(), Some(expected));
}

#[test]
fn header_set_twice_keeps_last_value() {
    let mut head = ResponseHead::new();
    head.set_header("Connection", "keep-alive");
    head.set_header("Accept", "*/*");
    head.set_header("Connection", "close");
    let expected = vec![
        (b"Accept\0".to_vec(), b"*/*\0".to_vec()),
        (b"Connection\0".to_vec(), b"close\0".to_vec()),
    ];
    assert_eq!(head.c_headers(), Some(expected));
}

#[test]
fn header_with_nul_is_refused() {
    let mut head = ResponseHead::new();
    head.set_header("A", "ok");
    head.set_header("B", "not\0ok");
    assert_eq!(head.c_headers(), None);
    let mut head = ResponseHead::new();
    head.set_header("N\0", "v");
    assert_eq!(head.c_headers(), None);
}

#[test]
fn empty_header_name_sorts_first() {
    let mut head = ResponseHead::new();
    head.set_header("a", "1");
    head.set_header("", "0");
    let expected = vec![(b"\0".to_vec(), b"0\0".to_vec()), (b"a\0".to_vec(), b"1\0".to_vec())];
    assert_eq!(head.c_headers(), Some(expected));
}

#[test]
fn compare_bytes_order() {
    assert!(compare_bytes(b"abc", b"abd") < 0);
    assert!(compare_bytes(b"abd", b"abc") > 0);
    assert_eq!(compare_bytes(b"abc", b"abc"), 0);
    assert!(compare_bytes(b"ab", b"abc") < 0);
    assert!(compare_bytes(b"abc", b"ab") > 0);
    assert_eq!(compare_bytes(b"", b""), 0);
    assert!(compare_bytes(b"Z", b"a") < 0);
    assert!(compare_bytes(&[0xff], &[0x01, 0x02]) > 0);
}
