use familyline_server::request::{
    accepted_format_of, discover_reply, discover_request_valid, find_local_address,
    local_address, parse_discover_message, HTTPRequestInfo, HTTPResponse, LineGroups,
    NetInterface, RequestPatterns, RequestScan,
};
use familyline_server::server::{ServerDiscoveryInfo, ServerInfo};

const REQUEST: &str = "GET /info HTTP/1.1\r\nAccept: text/plain, application/json \r\nAuthorization: Basic abc \r\nX-Client-Code: 1234\r\nContent-Length: 5\r\n\r\nhello";

#[test]
fn full_request_with_crlf() {
    let r = HTTPRequestInfo::parse_http_request(REQUEST.to_string()).unwrap();
    assert_eq!(r.method, "GET");
    assert_eq!(r.url, "/info");
    assert_eq!(r.format, Some("application/json".to_string()));
    assert_eq!(r.auth, Some("abc".to_string()));
    assert_eq!(r.player_code, Some("1234".to_string()));
    assert_eq!(r.length, None);
    assert_eq!(r.body, Some("hello\n".to_string()));
}

#[test]
fn request_with_plain_line_feeds() {
    let r = HTTPRequestInfo::parse_http_request(
        "POST /login HTTP/1.0\nContent-Length: 12\n\n{}\nmore".to_string(),
    )
    .unwrap();
    assert_eq!(r.method, "POST");
    assert_eq!(r.url, "/login");
    assert_eq!(r.length, Some(12));
    assert_eq!(r.body, Some("{}\nmore\n".to_string()));
    assert_eq!(r.format, None);
    assert_eq!(r.auth, None);
    assert_eq!(r.player_code, None);
}

#[test]
fn unsupported_http_version() {
    assert!(HTTPRequestInfo::parse_http_request("GET / HTTP/2.0\nAccept: text/html\n".to_string()).is_none());
}

#[test]
fn no_request_line() {
    assert!(HTTPRequestInfo::parse_http_request("hello\nAccept: text/html\n".to_string()).is_none());
    assert!(HTTPRequestInfo::parse_http_request(String::new()).is_none());
}

#[test]
fn first_request_line_and_headers_win() {
    let r = HTTPRequestInfo::parse_http_request(
        "GET /a b HTTP/1.1\nPOST /c HTTP/1.1\nX-Client-Code: one\nX-Client-Code: two\n".to_string(),
    )
    .unwrap();
    assert_eq!(r.method, "GET");
    assert_eq!(r.url, "/a b");
    assert_eq!(r.player_code, Some("one".to_string()));
    assert_eq!(r.body, Some(String::new()));
}

#[test]
fn headers_after_the_blank_line_are_body() {
    let r = HTTPRequestInfo::parse_http_request(
        "GET / HTTP/1.1\n\nAccept: text/html\n".to_string(),
    )
    .unwrap();
    assert_eq!(r.format, None);
    assert_eq!(r.body, Some(String::new()));
    let s = HTTPRequestInfo::parse_http_request("GET / HTTP/1.1\n\nAccept: text/html".to_string())
        .unwrap();
    assert_eq!(s.format, None);
    assert_eq!(s.body, Some("Accept: text/html\n".to_string()));
}

#[test]
fn accept_formats() {
    assert_eq!(accepted_format_of("text/html;q=0.9, application/json"), Some("text/html;q=0.9".to_string()));
    assert_eq!(accepted_format_of("text/plain, image/png"), None);
    assert_eq!(accepted_format_of(" application/json"), Some("application/json".to_string()));
}

#[test]
fn scanning_line_by_line() {
    let patterns = RequestPatterns::compile().unwrap();
    let mut scan = RequestScan::new();
    for line in ["PUT /x HTTP/1.1", "Authorization: Basic zz", ""] {
        let g = LineGroups::of(line, &patterns);
        scan.apply_line(line, &g);
    }
    assert!(!scan.is_rejected());
    let r = scan.finish().unwrap();
    assert_eq!(r.method, "PUT");
    assert_eq!(r.auth, Some("zz".to_string()));
    assert_eq!(r.body, Some(String::new()));
}

#[test]
fn line_groups_of_a_request_line() {
    let patterns = RequestPatterns::compile().unwrap();
    let g = LineGroups::of("DELETE /item/3 HTTP/1.0", &patterns);
    assert_eq!(g.method, Some("DELETE".to_string()));
    assert_eq!(g.path, Some("/item/3".to_string()));
    assert_eq!(g.version, Some("1.0".to_string()));
    assert_eq!(g.accept, None);
    let h = LineGroups::of("x Content-Length: 3", &patterns);
    assert_eq!(h.length, Some("3".to_string()));
    assert_eq!(h.method, None);
}

#[test]
fn response_lines() {
    let r = HTTPResponse::with_date(200, "{}", vec!["X-A: 1".to_string()], "DATE");
    assert_eq!(
        r.result,
        "HTTP/1.1 200 OK\r\nDate: DATE\r\nCache-Control: private, max-age=0\r\nServer: familyline-server 0.0.1-test\r\nContent-Length: 2\r\nContent-Type: application/json\r\nX-A: 1\r\n\r\n{}"
    );
    assert!(!r.keep_alive);
}

#[test]
fn response_without_body_or_json() {
    let r = HTTPResponse::with_date(404, "", vec![], "D");
    assert_eq!(
        r.result,
        "HTTP/1.1 404 Not Found\r\nDate: D\r\nCache-Control: private, max-age=0\r\nServer: familyline-server 0.0.1-test\r\n\r\n"
    );
    let s = HTTPResponse::with_date(101, "é", vec![], "D");
    assert!(s.result.starts_with("HTTP/1.1 101 Switching Protocols\r\n"));
    assert!(s.result.contains("Content-Length: 2\r\n"));
    assert!(!s.result.contains("Content-Type"));
}

#[test]
fn response_is_dated_now() {
    let r = HTTPResponse::new(201, "x", vec![]);
    assert!(r.result.starts_with("HTTP/1.1 201 Created\r\nDate: "));
    assert!(r.result.contains(" GMT\r\nCache-Control: private, max-age=0\r\n"));
    assert!(r.result.ends_with("Content-Length: 1\r\nContent-Type: application/json\r\n\r\nx"));
    assert!(!r.keep_alive);
}

const DISCOVER: &str = "M-SEARCH * HTTP/1.1\r\nHOST: 239.255.255.250:1900\r\nMAN: \"ssdp:discover\"\r\nST: game_server:familyline1\r\n\r\n";

#[test]
fn discovery_requests() {
    assert!(discover_request_valid(DISCOVER));
    assert!(!discover_request_valid("M-SEARCH * HTTP/1.1\r\nMAN: \"ssdp:discover\"\r\n\r\n"));
    assert!(!discover_request_valid(
        "M-SEARCH * HTTP/1.1\r\nMAN: \"ssdp:discover\"\r\n   \r\nST: game_server:familyline1\r\n"
    ));
    assert!(discover_request_valid("ST: game_server:familyline1\r\nMAN: \"ssdp:discover\""));
    assert!(!discover_request_valid(""));
}

#[test]
fn discovery_reply_lines() {
    let r = discover_reply("{\"a\":1}", "D", "10.0.0.2", 6142);
    assert_eq!(
        r,
        "HTTP/1.1 200 OK\r\nCache-Control: max-age=60\r\nDate: D\r\nExt: \r\nLocation: http://10.0.0.2:6142\r\nContent-Length: 7\r\nServer: familyline-server 0.0.1-test\r\n\r\n{\"a\":1}"
    );
}

fn sinfo() -> ServerDiscoveryInfo {
    ServerDiscoveryInfo::from(&ServerInfo::new("srv", "desc", 4, "pw"))
}

#[test]
fn discovery_message_answer() {
    let info = sinfo();
    let json = |s: &ServerDiscoveryInfo| format!("{{\"name\":\"{}\"}}", s.name);
    let r = parse_discover_message(DISCOVER.to_string(), &info, json).unwrap();
    assert!(r.starts_with("HTTP/1.1 200 OK\r\nCache-Control: max-age=60\r\nDate: "));
    assert!(r.contains("\r\nExt: \r\nLocation: http://"));
    assert!(r.contains(":6142\r\nContent-Length: 14\r\n"));
    assert!(r.ends_with("\r\n\r\n{\"name\":\"srv\"}"));
    assert!(parse_discover_message("M-SEARCH *\r\n".to_string(), &info, json).is_none());
}

fn iface(mac: Option<[u8; 6]>, ips: Vec<Option<[u8; 4]>>) -> NetInterface {
    NetInterface { mac, ips }
}

#[test]
fn local_address_choice() {
    let none: Vec<NetInterface> = Vec::new();
    assert_eq!(local_address(&none), "127.0.0.1");
    let list = vec![
        iface(None, vec![Some([10, 0, 0, 1])]),
        iface(Some([0; 6]), vec![Some([10, 0, 0, 2])]),
        iface(Some([0, 0, 0, 0, 0, 1]), vec![]),
        iface(Some([2, 0, 0, 0, 0, 0]), vec![None, Some([192, 168, 1, 5]), Some([1, 1, 1, 1])]),
        iface(Some([3, 0, 0, 0, 0, 0]), vec![Some([172, 16, 0, 1])]),
    ];
    assert_eq!(local_address(&list), "192.168.1.5");
    let only_v6 = vec![iface(Some([2, 0, 0, 0, 0, 0]), vec![None]), iface(Some([3; 6]), vec![Some([8, 8, 8, 8])])];
    assert_eq!(local_address(&only_v6), "8.8.8.8");
    let none_v4 = vec![iface(Some([2, 0, 0, 0, 0, 0]), vec![None]), iface(None, vec![Some([8, 8, 8, 8])])];
    assert_eq!(local_address(&none_v4), "127.0.0.1");
}

#[test]
fn local_address_of_this_machine() {
    let a = find_local_address();
    let parts: Vec<&str> = a.split('.').collect();
    assert_eq!(parts.len(), 4);
    assert!(parts.iter().all(|p| p.parse::<u8>().is_ok()));
}
