use xilers::ApiCall;
use xilers::RequestHandler;
use xilers::RouteError;
use xilers::Uid;
use xilers::extract_uuid_from_request;
use xilers::method_router;
use xilers::parse_request;
use xilers::parse_uuid;
use xilers::str_eq;
use xilers::uuid_text;

#[test]
fn parse_uuid_reads_canonical_text() {
    assert_eq!(
        parse_uuid("00000000-0000-0000-0000-000000000001"),
        Some(1u128)
    );
    assert_eq!(
        parse_uuid("123e4567-e89b-12d3-a456-426614174000"),
        Some(0x123e4567_e89b_12d3_a456_426614174000u128)
    );
    assert_eq!(
        parse_uuid("FFFFFFFF-FFFF-FFFF-FFFF-FFFFFFFFFFFF"),
        Some(u128::MAX)
    );
}

#[test]
fn parse_uuid_rejects_malformed_text() {
    assert_eq!(parse_uuid(""), None);
    assert_eq!(parse_uuid("123e4567-e89b-12d3-a456-42661417400"), None);
    assert_eq!(parse_uuid("123e4567-e89b-12d3-a456_426614174000"), None);
    assert_eq!(parse_uuid("123e4567-e89b-12d3-a456-42661417400g"), None);
}

#[test]
fn extract_uuid_finds_the_first_uuid() {
    let id = extract_uuid_from_request(
        "/device-manager/123e4567-e89b-12d3-a456-426614174000/spec/00000000-0000-0000-0000-000000000002",
    );
    assert_eq!(id, Some(Uid::new(0x123e4567_e89b_12d3_a456_426614174000)));
    assert_eq!(extract_uuid_from_request("/device-manager"), None);
}

#[test]
fn parse_request_splits_the_request_line_and_payload() {
    let raw = "POST /device-manager HTTP/1.1\r\nHost: master\r\n\r\n{\"os\":\"linux\"}";
    let req = parse_request(raw).unwrap();
    assert_eq!(req.method, "POST");
    assert_eq!(req.path, "/device-manager");
    assert_eq!(req.http_version, "HTTP/1.1");
    assert_eq!(req.payload, "{\"os\":\"linux\"}");
}

#[test]
fn parse_request_without_breaks_takes_whole_text_as_payload() {
    let req = parse_request("GET /device-manager HTTP/1.0").unwrap();
    assert_eq!(req.method, "GET");
    assert_eq!(req.path, "/device-manager");
    assert_eq!(req.http_version, "HTTP/1.0");
    assert_eq!(req.payload, "GET /device-manager HTTP/1.0");
}

#[test]
fn parse_request_rejects_a_malformed_head() {
    assert!(parse_request("no-spaces-here\r\n").is_none());
    assert!(parse_request("GET\r\nonly one word").is_none());
}

#[test]
fn router_maps_paths_onto_registry_calls() {
    let g = "123e4567-e89b-12d3-a456-426614174000";
    let d = "00000000-0000-0000-0000-000000000002";
    let gid = Uid::new(0x123e4567_e89b_12d3_a456_426614174000);
    let did = Uid::new(2);

    let req = parse_request(&format!(
        "GET /device-manager/{} HTTP/1.1\r\n\r\n",
        g
    ))
    .unwrap();
    assert_eq!(method_router(&req), Ok(ApiCall::GetManager { manager: gid }));

    let req = parse_request(&format!(
        "GET /device-manager/{}/spec/{} HTTP/1.1\r\n\r\n",
        g, d
    ))
    .unwrap();
    assert_eq!(
        method_router(&req),
        Ok(ApiCall::GetSpec { manager: gid, device: did })
    );

    let req = parse_request(&format!(
        "GET /device-manager/{}/fs/{} HTTP/1.1\r\n\r\n",
        g, d
    ))
    .unwrap();
    assert_eq!(
        method_router(&req),
        Ok(ApiCall::GetFs { manager: gid, device: did })
    );

    let req = parse_request("POST /device-manager HTTP/1.1\r\n\r\n").unwrap();
    assert_eq!(method_router(&req), Ok(ApiCall::PostManager));

    let req = parse_request(&format!(
        "POST /device-manager/{}/spec/{} HTTP/1.1\r\n\r\n",
        g, d
    ))
    .unwrap();
    assert_eq!(method_router(&req), Ok(ApiCall::PostSpec { manager: gid }));

    let req = parse_request(&format!(
        "POST /device-manager/{}/fs/{} HTTP/1.1\r\n\r\n",
        g, d
    ))
    .unwrap();
    assert_eq!(method_router(&req), Ok(ApiCall::PostFs { manager: gid }));
}

#[test]
fn router_reports_each_failure() {
    let req = parse_request("PUT /device-manager HTTP/1.1\r\n\r\n").unwrap();
    assert_eq!(method_router(&req), Err(RouteError::UnsupportedMethod));

    let req = parse_request("GET /elsewhere HTTP/1.1\r\n\r\n").unwrap();
    assert_eq!(method_router(&req), Err(RouteError::UnsupportedPath));

    let req = parse_request("GET /device-manager/not-an-id/spec/x HTTP/1.1\r\n\r\n").unwrap();
    assert_eq!(method_router(&req), Err(RouteError::MissingId));
}

#[test]
fn response_wrapping_frames_status_length_and_body() {
    let framed = RequestHandler::http_response_wrapping(
        "hello".to_string(),
        "HTTP/1.1".to_string(),
        "200 OK".to_string(),
    );
    assert_eq!(framed, "HTTP/1.1 200 OK\r\nContent-Length: 5\r\n\r\nhello");
}

#[test]
fn uuid_text_renders_canonically_and_reads_back() {
    assert_eq!(
        uuid_text(0x123e4567_e89b_12d3_a456_426614174000),
        "123e4567-e89b-12d3-a456-426614174000"
    );
    assert_eq!(uuid_text(0), "00000000-0000-0000-0000-000000000000");
    assert_eq!(uuid_text(u128::MAX), "ffffffff-ffff-ffff-ffff-ffffffffffff");
    let value = 0xdeadbeef_0123_4567_89ab_cdef01234567u128;
    assert_eq!(parse_uuid(&uuid_text(value)), Some(value));
}

#[test]
fn str_eq_compares_by_content() {
    assert!(str_eq("abc", "abc"));
    assert!(!str_eq("abc", "abd"));
    assert!(!str_eq("abc", "ab"));
    assert!(str_eq("", ""));
}
