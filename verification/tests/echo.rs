use std::io::Write;

use component_async_demo::echo::{
    carries, carries_each, request_body, request_headers, request_trailers, send_request, Echo,
    EchoCommand, EchoError, EchoErrorOf, EchoEventOf, Field, Response,
};
use flate2::write::DeflateEncoder;
use flate2::Compression;

const BODY: &[u8] = b"And the mome raths outgrabe";

fn field(name: &str, value: &str) -> Field {
    (name.to_owned(), value.as_bytes().to_vec())
}

fn compressed(data: &[u8]) -> Vec<u8> {
    let mut encoder = DeflateEncoder::new(Vec::new(), Compression::best());
    encoder.write_all(data).unwrap();
    encoder.finish().unwrap()
}

fn response(headers: Vec<Field>) -> Response {
    Response {
        status_code: 200,
        headers,
        has_body: true,
        has_trailers: true,
    }
}

/// Checks a component that sends back what it was sent, its body in pieces of
/// `size` bytes.
fn test_http_echo(use_compression: bool, size: usize) {
    let mut echo = Echo::new(use_compression);
    let body = request_body(use_compression).unwrap();

    assert_eq!(
        echo.handle(EchoEventOf::Response(response(request_headers(use_compression))))
            .unwrap(),
        EchoCommand::ReadBody
    );
    assert_eq!(
        echo.handle(EchoEventOf::RequestBodyWrite).unwrap(),
        EchoCommand::CloseRequestBody
    );
    for chunk in body.chunks(size) {
        assert_eq!(
            echo.handle(EchoEventOf::ResponseBodyRead(Some(chunk.to_vec())))
                .unwrap(),
            EchoCommand::ReadBody
        );
    }
    assert_eq!(
        echo.handle(EchoEventOf::RequestTrailersWrite).unwrap(),
        EchoCommand::Wait
    );
    assert_eq!(
        echo.handle(EchoEventOf::ResponseBodyRead(None)).unwrap(),
        EchoCommand::ReadTrailers
    );
    assert!(!echo.received_trailers());
    assert_eq!(
        echo.handle(EchoEventOf::ResponseTrailersRead(Some(request_trailers())))
            .unwrap(),
        EchoCommand::Wait
    );
    assert!(echo.received_trailers());
}

#[test]
fn http_echo() {
    for size in [1, 10, 1000] {
        test_http_echo(false, size);
    }
}

#[test]
fn middleware() {
    for size in [1, 10, 1000] {
        test_http_echo(true, size);
    }
}

#[test]
fn requests() {
    assert_eq!(request_headers(false), vec![field("foo", "bar")]);
    assert_eq!(
        request_headers(true),
        vec![
            field("foo", "bar"),
            field("content-encoding", "deflate"),
            field("accept-encoding", "deflate"),
        ]
    );
    assert_eq!(request_trailers(), vec![field("fizz", "buzz")]);
    assert_eq!(request_body(false).unwrap(), BODY);
}

#[test]
fn compressed_request_body() {
    let mut encoder = DeflateEncoder::new(Vec::new(), Compression::fast());
    encoder.write_all(BODY).unwrap();
    let expected = encoder.finish().unwrap();
    assert_ne!(expected, BODY);
    assert_eq!(request_body(true).unwrap(), expected);
}

#[test]
fn no_outbound_requests() {
    assert_eq!(
        send_request::<()>(),
        Err("no outbound request handler available".to_owned())
    );
}

#[test]
fn fields() {
    let fields = vec![field("a", "1"), field("b", "2"), field("a", "3")];
    assert!(carries(&fields, &field("a", "3")));
    assert!(!carries(&fields, &field("b", "3")));
    assert!(!carries(&fields, &field("a", "")));
    assert!(!carries(&fields, &field("A", "1")));
    assert!(carries_each(&vec![], &vec![]));
    assert!(carries_each(&vec![field("a", "3"), field("b", "2")], &fields));
    assert!(!carries_each(&vec![field("a", "3"), field("c", "2")], &fields));
}

fn respond(use_compression: bool, response: Response) -> Result<EchoCommand, EchoError> {
    Echo::new(use_compression).handle(EchoEventOf::Response(response))
}

#[test]
fn refused_responses() {
    let mut not_ok = response(request_headers(false));
    not_ok.status_code = 404;
    assert!(matches!(respond(false, not_ok), Err(EchoErrorOf::Status(404))));

    assert!(matches!(
        respond(false, response(vec![field("foo", "baz")])),
        Err(EchoErrorOf::HeadersMissing)
    ));

    assert!(matches!(
        respond(true, response(request_headers(false))),
        Err(EchoErrorOf::NotCompressed)
    ));

    let mut no_body = response(request_headers(true));
    no_body.has_body = false;
    assert!(matches!(respond(true, no_body), Err(EchoErrorOf::NoBody)));

    let more = vec![field("x", "y"), field("foo", "bar")];
    assert!(matches!(respond(false, response(more)), Ok(EchoCommand::ReadBody)));
}

/// What comes of a response with this body.
fn end_body(
    use_compression: bool,
    has_trailers: bool,
    body: &[u8],
) -> Result<EchoCommand, EchoError> {
    let mut echo = Echo::new(use_compression);
    let mut response = response(request_headers(use_compression));
    response.has_trailers = has_trailers;
    echo.handle(EchoEventOf::Response(response)).unwrap();
    echo.handle(EchoEventOf::ResponseBodyRead(Some(body.to_vec())))
        .unwrap();
    echo.handle(EchoEventOf::ResponseBodyRead(None))
}

#[test]
fn bodies() {
    assert!(matches!(end_body(false, true, BODY), Ok(EchoCommand::ReadTrailers)));
    assert!(matches!(
        end_body(true, true, &compressed(BODY)),
        Ok(EchoCommand::ReadTrailers)
    ));
    assert!(matches!(
        end_body(false, true, &BODY[1..]),
        Err(EchoErrorOf::BodyMismatch)
    ));
    assert!(matches!(
        end_body(false, true, &compressed(BODY)),
        Err(EchoErrorOf::BodyMismatch)
    ));
    assert!(matches!(
        end_body(true, true, &compressed(b"All mimsy were the borogoves")),
        Err(EchoErrorOf::BodyMismatch)
    ));
    assert!(matches!(end_body(true, true, BODY), Err(EchoErrorOf::Codec(_))));
    assert!(matches!(end_body(false, false, BODY), Err(EchoErrorOf::NoTrailers)));
}

#[test]
fn decoded_bodies() {
    let mut echo = Echo::new(true);
    assert!(matches!(
        echo.accept_body(&BODY.to_vec()),
        Err(EchoErrorOf::NoTrailers)
    ));
    echo.handle(EchoEventOf::Response(response(request_headers(true))))
        .unwrap();
    assert!(matches!(echo.accept_body(&vec![]), Err(EchoErrorOf::BodyMismatch)));
    assert!(matches!(
        echo.accept_body(&BODY.to_vec()),
        Ok(EchoCommand::ReadTrailers)
    ));
    assert!(matches!(
        echo.accept_body(&BODY.to_vec()),
        Err(EchoErrorOf::NoTrailers)
    ));
}

#[test]
fn trailers() {
    let mut echo = Echo::new(false);
    assert!(matches!(
        echo.handle(EchoEventOf::ResponseTrailersRead(None)),
        Err(EchoErrorOf::TrailersExpected)
    ));
    assert!(matches!(
        echo.handle(EchoEventOf::ResponseTrailersRead(Some(vec![field("fizz", "fizz")]))),
        Err(EchoErrorOf::TrailersMissing)
    ));
    assert!(!echo.received_trailers());
    assert!(matches!(
        echo.handle(EchoEventOf::Failed),
        Err(EchoErrorOf::Failed)
    ));
}
