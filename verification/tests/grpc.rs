//! gRPC over HTTP, and the front door to it.

use wasmcloud_plugins::gateway::{handle, respond, var};
use wasmcloud_plugins::grpc::{
    frame, needs_trailers, read_status, rejection, split_frames, transport_error, unary,
    unary_reply, Call,
};
use wasmcloud_plugins::http::{header, Method, Rejected};

fn fields(pairs: &[(&str, &str)]) -> Vec<(String, Vec<u8>)> {
    pairs.iter().map(|(k, v)| ((*k).to_string(), v.as_bytes().to_vec())).collect()
}

fn environment(pairs: &[(&str, &str)]) -> Vec<(String, String)> {
    pairs.iter().map(|(k, v)| ((*k).to_string(), (*v).to_string())).collect()
}

#[test]
fn a_message_is_framed_and_read_back() {
    assert_eq!(frame(b"abc"), vec![0, 0, 0, 0, 3, b'a', b'b', b'c']);
    let mut body = frame(b"one");
    body.extend(frame(b""));
    body.extend(frame(b"three"));
    assert_eq!(split_frames(&body), vec![b"one".to_vec(), Vec::new(), b"three".to_vec()]);
}

#[test]
fn a_truncated_or_compressed_frame_is_left_out() {
    let mut body = frame(b"one");
    body.extend([0, 0, 0, 0, 9, b'x']);
    assert_eq!(split_frames(&body), vec![b"one".to_vec()]);
    let mut packed = vec![1, 0, 0, 0, 1, b'z'];
    packed.extend(frame(b"two"));
    assert_eq!(split_frames(&packed), vec![b"two".to_vec()]);
    assert!(split_frames(&[0, 0]).is_empty());
    assert!(split_frames(&[0, 255, 255, 255, 255, 1]).is_empty());
}

#[test]
fn a_frame_that_breaks_off_anywhere_adds_nothing() {
    let last = frame(b"cut short");
    for kept in 0..last.len() {
        let mut body = frame(b"one");
        body.extend(&last[..kept]);
        assert_eq!(split_frames(&body), vec![b"one".to_vec()], "{kept}");
    }
}

#[test]
fn a_call_becomes_a_post_with_its_length() {
    let request = unary(Call {
        authority: "host:18098",
        secure: true,
        path: "/couchbase.kv.v1.KvService/Get",
        message: b"xy".to_vec(),
        headers: fields(&[("authorization", "Basic abc")]),
        timeout_ns: Some(5),
    });
    assert_eq!(request.method, Method::Post);
    assert!(request.secure);
    assert_eq!(request.authority, "host:18098");
    assert_eq!(request.path, "/couchbase.kv.v1.KvService/Get");
    assert_eq!(
        request.headers,
        fields(&[
            ("content-type", "application/grpc"),
            ("te", "trailers"),
            ("content-length", "7"),
            ("authorization", "Basic abc"),
        ])
    );
    assert_eq!(request.body, Some(frame(b"xy")));
    assert_eq!(request.timeout_ns, Some(5));
}

#[test]
fn a_status_in_the_headers_needs_no_trailers() {
    let headers = fields(&[("Grpc-Status", " 5 "), ("grpc-message", "nope")]);
    assert_eq!(read_status(&headers), (Some(5), Some("nope".to_string())));
    assert!(!needs_trailers(&headers));
    assert!(needs_trailers(&fields(&[("grpc-status", "many")])));
    let reply = unary_reply(200, &headers, Some(&fields(&[("grpc-status", "0")])), b"");
    assert_eq!(reply.status, Some(5));
    assert_eq!(reply.message, "nope");
    assert!(!reply.ok());
}

#[test]
fn a_status_in_the_trailers_is_read() {
    let reply = unary_reply(200, &[], Some(&fields(&[("grpc-status", "0")])), &frame(b"m"));
    assert_eq!(reply.status, Some(0));
    assert!(reply.ok());
    assert_eq!(reply.frames, vec![b"m".to_vec()]);
}

#[test]
fn a_missing_status_is_not_a_success() {
    let reply = unary_reply(200, &[], None, &frame(b"m"));
    assert_eq!(reply.status, None);
    assert!(!reply.ok());
}

#[test]
fn refusals_name_their_part() {
    let part = Rejected::Header { name: "te".to_string(), reason: "Forbidden".to_string() };
    assert_eq!(rejection("a", "p", &part), "header `te` was rejected: Forbidden");
    assert_eq!(rejection("a", "p", &Rejected::Method), "wasi:http rejected POST");
    assert_eq!(rejection("a", "p", &Rejected::Scheme), "wasi:http rejected the scheme");
    assert_eq!(rejection("a", "p", &Rejected::Authority), "`a` is not a valid authority");
    assert_eq!(rejection("a", "p", &Rejected::Path), "`p` is not a valid path");
    assert_eq!(transport_error("DnsTimeout"), "transport error: DnsTimeout");
}

#[test]
fn a_request_is_routed_with_the_callers_credential_only() {
    let env = environment(&[("GRPC_AUTHORITY", "cb:18098"), ("GRPC_TIMEOUT_MS", "250")]);
    let headers = fields(&[("Authorization", "Basic x"), ("cookie", "c")]);
    let route = match handle(&env, "/pkg.Service/Method", &headers) {
        Ok(route) => route,
        Err(answer) => panic!("{answer:?}"),
    };
    assert_eq!(route.authority, "cb:18098");
    assert!(route.secure);
    assert_eq!(route.path, "/pkg.Service/Method");
    assert_eq!(route.timeout_ns, 250_000_000);
    assert_eq!(route.headers.len(), 1);
    assert_eq!(route.headers[0].1, b"Basic x".to_vec());
}

#[test]
fn plaintext_is_only_chosen_by_name() {
    for (value, secure) in [("1", false), ("true", true), ("0", true), ("", true)] {
        let env = environment(&[("GRPC_AUTHORITY", "cb:1"), ("GRPC_PLAINTEXT", value)]);
        match handle(&env, "/a/b", &[]) {
            Ok(route) => {
                assert_eq!(route.secure, secure, "{value}");
                assert_eq!(route.timeout_ns, 30_000_000_000);
            }
            Err(answer) => panic!("{answer:?}"),
        }
    }
}

#[test]
fn a_request_that_cannot_be_routed_is_answered() {
    match handle(&[], "/a/b", &[]) {
        Err(answer) => {
            assert_eq!(answer.status, 500);
            assert_eq!(
                answer.body,
                b"GRPC_AUTHORITY is not set: it names the gRPC endpoint, as host:port\n".to_vec()
            );
        }
        Ok(_) => panic!("routed"),
    }
    let env = environment(&[("GRPC_AUTHORITY", "cb:1")]);
    for path in [
        "/", "/a", "/a/", "/a/b/c", "/a/b?x", "", "//Get", "a/b/c", "a/b", "/a//", "//", "x//Get",
    ] {
        match handle(&env, path, &[]) {
            Err(answer) => assert_eq!(answer.status, 400, "{path}"),
            Ok(_) => panic!("routed {path}"),
        }
    }
    assert_eq!(wasmcloud_plugins::gateway::unreachable("gone").status, 502);
    assert_eq!(var(&env, "GRPC_AUTHORITY"), Some("cb:1".to_string()));
    assert_eq!(var(&env, "OTHER"), None);
}

#[test]
fn an_outcome_is_answered_in_headers() {
    let reply = unary_reply(
        200,
        &[],
        Some(&fields(&[("grpc-status", "5"), ("grpc-message", "not found")])),
        b"",
    );
    let answer = respond(&reply);
    assert_eq!(answer.status, 200);
    assert_eq!(header(&answer.headers, "grpc-status"), Some("5".to_string()));
    assert_eq!(header(&answer.headers, "grpc-message"), Some("not found".to_string()));
    assert_eq!(header(&answer.headers, "grpc-frames"), Some("0".to_string()));
    assert_eq!(header(&answer.headers, "grpc-http-status"), Some("200".to_string()));
    assert!(answer.body.is_empty());
    let fine = unary_reply(200, &[], Some(&fields(&[("grpc-status", "0")])), &frame(b"m"));
    let answer = respond(&fine);
    assert_eq!(header(&answer.headers, "grpc-message"), None);
    assert_eq!(answer.body, b"m".to_vec());
}
