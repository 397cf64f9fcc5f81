//! Checking that a component echoes an HTTP request.
//!
//! A request with a header, a body and a trailer is sent, compressed or not.
//! The response has to carry the same header, body and trailer, encoded in the
//! same way.
use vstd::prelude::*;
use vstd::utf8::encode_utf8;

use crate::codec::{deflate, inflate};
#[allow(unused_imports)]
use crate::codec::{deflated, inflated};

verus! {

/// A header or a trailer: a name and a value.
pub type Field = (String, Vec<u8>);

/// A header or a trailer, over mathematical strings.
pub type FieldView = (Seq<char>, Seq<u8>);

/// The views of a list of fields.
pub open spec fn field_views(fields: Seq<Field>) -> Seq<FieldView> {
    fields.map_values(|f: Field| (f.0@, f.1@))
}

/// The field with this name and the bytes of this text for a value.
pub open spec fn text_field(name: Seq<char>, value: Seq<char>) -> FieldView {
    (name, encode_utf8(value))
}

/// Whether each of `expected` is among `actual`.
pub open spec fn carries_all(expected: Seq<FieldView>, actual: Seq<FieldView>) -> bool {
    forall|i: int| 0 <= i < expected.len() ==> actual.contains(#[trigger] expected[i])
}

/// The headers that have to come back.
pub open spec fn echoed_headers() -> Seq<FieldView> {
    seq![text_field("foo"@, "bar"@)]
}

/// The header that says that a body is compressed.
pub open spec fn deflate_encoding() -> FieldView {
    text_field("content-encoding"@, "deflate"@)
}

/// The headers of a request.
pub open spec fn headers_of(use_compression: bool) -> Seq<FieldView> {
    if use_compression {
        echoed_headers().push(deflate_encoding()).push(
            text_field("accept-encoding"@, "deflate"@),
        )
    } else {
        echoed_headers()
    }
}

/// The trailers of a request.
pub open spec fn trailers() -> Seq<FieldView> {
    seq![text_field("fizz"@, "buzz"@)]
}

/// The body of a request, before it is compressed.
pub open spec fn body() -> Seq<u8> {
    encode_utf8("And the mome raths outgrabe"@)
}

/// The body that `data` stands for; `None` if it stands for none.
pub open spec fn decoded(use_compression: bool, data: Seq<u8>) -> Option<Seq<u8>> {
    if use_compression {
        inflated(data)
    } else {
        Some(data)
    }
}

fn field(name: &str, value: &str) -> (r: Field)
    ensures
        (r.0@, r.1@) == text_field(name@, value@),
{
    (name.to_owned(), value.as_bytes_vec())
}

fn same_bytes(a: &Vec<u8>, b: &Vec<u8>) -> (r: bool)
    ensures
        r == (a@ == b@),
{
    if a.len() != b.len() {
        return false;
    }
    let mut i: usize = 0;
    while i < a.len()
        invariant
            i <= a.len(),
            a@.len() == b@.len(),
            forall|j: int| 0 <= j < i ==> a@[j] == b@[j],
        decreases a.len() - i,
    {
        if a[i] != b[i] {
            return false;
        }
        i = i + 1;
    }
    assert(a@ =~= b@);
    true
}

/// Whether one of `fields` has the name and the value of `field`.
pub open spec fn has_field(fields: Seq<Field>, field: Field) -> bool {
    exists|i: int|
        0 <= i < fields.len() && (#[trigger] fields[i]).0@ == field.0@ && fields[i].1@ == field.1@
}

/// Whether `field` is among `fields`.
pub fn carries(fields: &Vec<Field>, field: &Field) -> (r: bool)
    ensures
        r == field_views(fields@).contains((field.0@, field.1@)),
        r == has_field(fields@, *field),
        r == exists|i: int|
            0 <= i < fields@.len() && (#[trigger] fields@[i]).0@ == field.0@ && fields@[i].1@
                == field.1@,
{
    let mut i: usize = 0;
    while i < fields.len()
        invariant
            i <= fields.len(),
            forall|j: int| 0 <= j < i ==> field_views(fields@)[j] != (field.0@, field.1@),
            forall|j: int|
                0 <= j < i ==> !((#[trigger] fields@[j]).0@ == field.0@ && fields@[j].1@
                    == field.1@),
        decreases fields.len() - i,
    {
        if fields[i].0 == field.0 && same_bytes(&fields[i].1, &field.1) {
            assert(field_views(fields@)[i as int] == (field.0@, field.1@));
            return true;
        }
        i = i + 1;
    }
    false
}

/// Whether each of `expected` is among `actual`.
pub fn carries_each(expected: &Vec<Field>, actual: &Vec<Field>) -> (r: bool)
    ensures
        r == carries_all(field_views(expected@), field_views(actual@)),
        r == forall|j: int|
            0 <= j < expected@.len() ==> has_field(actual@, #[trigger] expected@[j]),
{
    let mut i: usize = 0;
    while i < expected.len()
        invariant
            i <= expected.len(),
            forall|j: int|
                0 <= j < i ==> field_views(actual@).contains(
                    #[trigger] field_views(expected@)[j],
                ),
            forall|j: int| 0 <= j < i ==> has_field(actual@, #[trigger] expected@[j]),
        decreases expected.len() - i,
    {
        if !carries(actual, &expected[i]) {
            assert(!field_views(actual@).contains(field_views(expected@)[i as int]));
            return false;
        }
        i = i + 1;
    }
    true
}

/// The headers that have to come back.
fn required_headers() -> (r: Vec<Field>)
    ensures
        field_views(r@) == echoed_headers(),
{
    let mut headers: Vec<Field> = Vec::new();
    headers.push(field("foo", "bar"));
    assert(field_views(headers@) =~= echoed_headers());
    headers
}

/// The headers of the request.
pub fn request_headers(use_compression: bool) -> (r: Vec<Field>)
    ensures
        field_views(r@) == headers_of(use_compression),
{
    let mut headers = required_headers();
    if use_compression {
        let ghost before = headers@;
        headers.push(field("content-encoding", "deflate"));
        headers.push(field("accept-encoding", "deflate"));
        assert(field_views(headers@) =~= field_views(before).push(deflate_encoding()).push(
            text_field("accept-encoding"@, "deflate"@),
        ));
    }
    headers
}

/// The trailers of the request.
pub fn request_trailers() -> (r: Vec<Field>)
    ensures
        field_views(r@) == trailers(),
{
    let mut fields: Vec<Field> = Vec::new();
    fields.push(field("fizz", "buzz"));
    assert(field_views(fields@) =~= trailers());
    fields
}

fn plain_body() -> (r: Vec<u8>)
    ensures
        r@ == body(),
{
    "And the mome raths outgrabe".as_bytes_vec()
}

/// The body of the request as it is sent.
pub fn request_body(use_compression: bool) -> (r: Result<Vec<u8>, std::io::Error>)
    ensures
        match r {
            Ok(bytes) => {
                &&& use_compression ==> deflated(body()) == Some(bytes@)
                &&& !use_compression ==> bytes@ == body()
                &&& decoded(use_compression, bytes@) == Some(body())
            },
            Err(_) => use_compression && deflated(body()) is None,
        },
{
    let bytes = plain_body();
    if use_compression {
        deflate(bytes.as_slice())
    } else {
        Ok(bytes)
    }
}

/// A request that a component sends out is refused: there is nothing to send it
/// with.
pub fn send_request<R>() -> (r: Result<R, String>)
    ensures
        r matches Err(message) && message@ == "no outbound request handler available"@,
{
    Err("no outbound request handler available".to_owned())
}

/// A response, as far as it is looked at before its body is read.
#[derive(Debug)]
pub struct Response {
    pub status_code: u16,
    pub headers: Vec<Field>,
    /// Whether it has a body to read.
    pub has_body: bool,
    /// Whether trailers can follow the body.
    pub has_trailers: bool,
}

/// A response, over mathematical strings.
pub struct ResponseView {
    pub status_code: u16,
    pub headers: Seq<FieldView>,
    pub has_body: bool,
    pub has_trailers: bool,
}

impl View for Response {
    type V = ResponseView;

    open spec fn view(&self) -> ResponseView {
        ResponseView {
            status_code: self.status_code,
            headers: field_views(self.headers@),
            has_body: self.has_body,
            has_trailers: self.has_trailers,
        }
    }
}

/// An operation ended: `R` is a response, `B` bytes, and `F` a list of fields.
#[derive(Debug)]
pub enum EchoEventOf<R, B, F> {
    /// The body of the request was taken.
    RequestBodyWrite,
    /// The trailers of the request were taken.
    RequestTrailersWrite,
    /// The component responded.
    Response(R),
    /// Bytes of the response's body came, or there are no more.
    ResponseBodyRead(Option<B>),
    /// The trailers of the response came, or there are none.
    ResponseTrailersRead(Option<F>),
    /// An operation failed, or the component responded with an error.
    Failed,
}

pub type EchoEvent = EchoEventOf<Response, Vec<u8>, Vec<Field>>;

/// An operation ended, over mathematical strings.
pub type EchoEventView = EchoEventOf<ResponseView, Seq<u8>, Seq<FieldView>>;

impl View for EchoEventOf<Response, Vec<u8>, Vec<Field>> {
    type V = EchoEventView;

    open spec fn view(&self) -> EchoEventView {
        match self {
            EchoEventOf::RequestBodyWrite => EchoEventOf::RequestBodyWrite,
            EchoEventOf::RequestTrailersWrite => EchoEventOf::RequestTrailersWrite,
            EchoEventOf::Response(response) => EchoEventOf::Response(response@),
            EchoEventOf::ResponseBodyRead(Some(chunk)) => EchoEventOf::ResponseBodyRead(
                Some(chunk@),
            ),
            EchoEventOf::ResponseBodyRead(None) => EchoEventOf::ResponseBodyRead(None),
            EchoEventOf::ResponseTrailersRead(Some(fields)) => EchoEventOf::ResponseTrailersRead(
                Some(field_views(fields@)),
            ),
            EchoEventOf::ResponseTrailersRead(None) => EchoEventOf::ResponseTrailersRead(None),
            EchoEventOf::Failed => EchoEventOf::Failed,
        }
    }
}

/// What is to be done when an operation has ended.
#[derive(Debug, Clone, Copy, PartialEq, Eq)]
pub enum EchoCommand {
    /// Nothing.
    Wait,
    /// Close the body of the request.
    CloseRequestBody,
    /// Read more of the response's body.
    ReadBody,
    /// Read the response's trailers.
    ReadTrailers,
}

/// Why the check fails; `E` is an error of a decoder.
#[derive(Debug)]
pub enum EchoErrorOf<E> {
    /// The status is not 200.
    Status(u16),
    /// A header did not come back.
    HeadersMissing,
    /// The response does not say that it is compressed, and it should.
    NotCompressed,
    /// The response has no body.
    NoBody,
    /// The response's body cannot be decompressed.
    Codec(E),
    /// The body that came back is another.
    BodyMismatch,
    /// The response has no place for trailers, or they have been read.
    NoTrailers,
    /// A trailer did not come back.
    TrailersMissing,
    /// Trailers were expected, and there are none.
    TrailersExpected,
    /// An operation failed, or the component responded with an error.
    Failed,
}

pub type EchoError = EchoErrorOf<std::io::Error>;

impl View for EchoErrorOf<std::io::Error> {
    type V = EchoErrorOf<()>;

    open spec fn view(&self) -> EchoErrorOf<()> {
        match self {
            EchoErrorOf::Status(code) => EchoErrorOf::Status(*code),
            EchoErrorOf::HeadersMissing => EchoErrorOf::HeadersMissing,
            EchoErrorOf::NotCompressed => EchoErrorOf::NotCompressed,
            EchoErrorOf::NoBody => EchoErrorOf::NoBody,
            EchoErrorOf::Codec(_) => EchoErrorOf::Codec(()),
            EchoErrorOf::BodyMismatch => EchoErrorOf::BodyMismatch,
            EchoErrorOf::NoTrailers => EchoErrorOf::NoTrailers,
            EchoErrorOf::TrailersMissing => EchoErrorOf::TrailersMissing,
            EchoErrorOf::TrailersExpected => EchoErrorOf::TrailersExpected,
            EchoErrorOf::Failed => EchoErrorOf::Failed,
        }
    }
}

/// The state of a check.
pub struct EchoView {
    /// Whether the request was compressed.
    pub use_compression: bool,
    /// The bytes of the response's body that have come.
    pub response_body: Seq<u8>,
    /// Whether the response's trailers are still to be read.
    pub response_trailers: bool,
    /// Whether the trailers have come back.
    pub received_trailers: bool,
}

/// Why a response is refused before its body is read, if it is.
pub open spec fn refusal(use_compression: bool, response: ResponseView) -> Option<
    EchoErrorOf<()>,
> {
    if response.status_code != 200 {
        Some(EchoErrorOf::Status(response.status_code))
    } else if !carries_all(echoed_headers(), response.headers) {
        Some(EchoErrorOf::HeadersMissing)
    } else if use_compression && !response.headers.contains(deflate_encoding()) {
        Some(EchoErrorOf::NotCompressed)
    } else if !response.has_body {
        Some(EchoErrorOf::NoBody)
    } else {
        None
    }
}

/// What follows when the whole body has come and been decoded.
pub open spec fn on_body(state: EchoView, bytes: Seq<u8>) -> Result<
    (EchoView, EchoCommand),
    EchoErrorOf<()>,
> {
    if bytes != body() {
        Err(EchoErrorOf::BodyMismatch)
    } else if !state.response_trailers {
        Err(EchoErrorOf::NoTrailers)
    } else {
        Ok((EchoView { response_trailers: false, ..state }, EchoCommand::ReadTrailers))
    }
}

/// The state after `event` and what is to be done, or why the check fails.
pub open spec fn next(state: EchoView, event: EchoEventView) -> Result<
    (EchoView, EchoCommand),
    EchoErrorOf<()>,
> {
    match event {
        EchoEventOf::RequestBodyWrite => Ok((state, EchoCommand::CloseRequestBody)),
        EchoEventOf::RequestTrailersWrite => Ok((state, EchoCommand::Wait)),
        EchoEventOf::Response(response) => match refusal(state.use_compression, response) {
            Some(error) => Err(error),
            None => Ok(
                (
                    EchoView { response_trailers: response.has_trailers, ..state },
                    EchoCommand::ReadBody,
                ),
            ),
        },
        EchoEventOf::ResponseBodyRead(Some(chunk)) => Ok(
            (
                EchoView { response_body: state.response_body + chunk, ..state },
                EchoCommand::ReadBody,
            ),
        ),
        EchoEventOf::ResponseBodyRead(None) => match decoded(
            state.use_compression,
            state.response_body,
        ) {
            Some(bytes) => on_body(state, bytes),
            None => Err(EchoErrorOf::Codec(())),
        },
        EchoEventOf::ResponseTrailersRead(Some(fields)) => if carries_all(trailers(), fields) {
            Ok((EchoView { received_trailers: true, ..state }, EchoCommand::Wait))
        } else {
            Err(EchoErrorOf::TrailersMissing)
        },
        EchoEventOf::ResponseTrailersRead(None) => Err(EchoErrorOf::TrailersExpected),
        EchoEventOf::Failed => Err(EchoErrorOf::Failed),
    }
}

/// A check at its beginning.
pub open spec fn new_check(use_compression: bool) -> EchoView {
    EchoView {
        use_compression,
        response_body: Seq::empty(),
        response_trailers: false,
        received_trailers: false,
    }
}

/// Whether `r` and the new state are what `outcome` says; a check that fails
/// stays as it is.
pub open spec fn agrees(
    before: EchoView,
    after: EchoView,
    r: Result<EchoCommand, EchoError>,
    outcome: Result<(EchoView, EchoCommand), EchoErrorOf<()>>,
) -> bool {
    match r {
        Ok(command) => outcome == Ok::<_, EchoErrorOf<()>>((after, command)),
        Err(error) => {
            &&& outcome == Err::<(EchoView, EchoCommand), _>(error@)
            &&& after == before
        },
    }
}

/// One field is among others exactly if the list of it is.
proof fn lemma_one_field(field: FieldView, actual: Seq<FieldView>)
    ensures
        carries_all(seq![field], actual) <==> actual.contains(field),
{
    if carries_all(seq![field], actual) {
        assert(actual.contains(seq![field][0]));
    }
}

/// A check of one component.
#[derive(Debug)]
pub struct Echo {
    use_compression: bool,
    response_body: Vec<u8>,
    response_trailers: bool,
    received_trailers: bool,
}

impl View for Echo {
    type V = EchoView;

    closed spec fn view(&self) -> EchoView {
        EchoView {
            use_compression: self.use_compression,
            response_body: self.response_body@,
            response_trailers: self.response_trailers,
            received_trailers: self.received_trailers,
        }
    }
}

impl Echo {
    /// Begins a check.
    pub fn new(use_compression: bool) -> (r: Echo)
        ensures
            r@ == new_check(use_compression),
            r@.use_compression == use_compression,
            r@.response_body.len() == 0,
            !r@.response_trailers && !r@.received_trailers,
    {
        let echo = Echo {
            use_compression,
            response_body: Vec::new(),
            response_trailers: false,
            received_trailers: false,
        };
        assert(echo@.response_body =~= Seq::empty());
        echo
    }

    /// Goes on when an operation has ended.
    pub fn handle(&mut self, event: EchoEvent) -> (r: Result<EchoCommand, EchoError>)
        ensures
            agrees(old(self)@, final(self)@, r, next(old(self)@, event@)),
            match r {
                Ok(command) => next(old(self)@, event@) == Ok::<_, EchoErrorOf<()>>(
                    (final(self)@, command),
                ),
                Err(error) => next(old(self)@, event@) == Err::<(EchoView, EchoCommand), _>(error@),
            },
            r is Err ==> final(self)@ == old(self)@,
            event is RequestBodyWrite ==> r is Ok && r->Ok_0 is CloseRequestBody && final(self)@
                == old(self)@,
            event is RequestTrailersWrite ==> r is Ok && r->Ok_0 is Wait && final(self)@
                == old(self)@,
            // A response is asked for the status, the header of the request and, if the
            // request was compressed, for being compressed, and for nothing else.
            event matches EchoEventOf::Response(response) ==> {
                let headers = field_views(response.headers@);
                if response.status_code != 200 {
                    r is Err && r->Err_0 == EchoError::Status(response.status_code)
                } else if !headers.contains(("foo"@, encode_utf8("bar"@))) {
                    r is Err && r->Err_0 is HeadersMissing
                } else if old(self)@.use_compression && !headers.contains(
                    ("content-encoding"@, encode_utf8("deflate"@)),
                ) {
                    r is Err && r->Err_0 is NotCompressed
                } else if !response.has_body {
                    r is Err && r->Err_0 is NoBody
                } else {
                    &&& r is Ok && r->Ok_0 is ReadBody
                    &&& final(self)@ == (EchoView {
                        response_trailers: response.has_trailers,
                        ..old(self)@
                    })
                }
            },
            // The body is all that came, decoded if it was compressed.
            event matches EchoEventOf::ResponseBodyRead(Some(chunk)) ==> {
                &&& r is Ok && r->Ok_0 is ReadBody
                &&& final(self)@ == (EchoView {
                    response_body: old(self)@.response_body + chunk@,
                    ..old(self)@
                })
            },
            event matches EchoEventOf::ResponseBodyRead(None) ==> {
                let bytes = if old(self)@.use_compression {
                    inflated(old(self)@.response_body)
                } else {
                    Some(old(self)@.response_body)
                };
                match bytes {
                    None => r is Err && r->Err_0 is Codec,
                    Some(bytes) => if bytes != encode_utf8("And the mome raths outgrabe"@) {
                        r is Err && r->Err_0 is BodyMismatch
                    } else if !old(self)@.response_trailers {
                        r is Err && r->Err_0 is NoTrailers
                    } else {
                        &&& r is Ok && r->Ok_0 is ReadTrailers
                        &&& final(self)@ == (EchoView { response_trailers: false, ..old(self)@ })
                    },
                }
            },
            // Trailers have to come, and the one of the request among them.
            event matches EchoEventOf::ResponseTrailersRead(Some(fields)) ==> {
                if field_views(fields@).contains(("fizz"@, encode_utf8("buzz"@))) {
                    &&& r is Ok && r->Ok_0 is Wait
                    &&& final(self)@ == (EchoView { received_trailers: true, ..old(self)@ })
                } else {
                    r is Err && r->Err_0 is TrailersMissing
                }
            },
            event matches EchoEventOf::ResponseTrailersRead(None) ==> r is Err
                && r->Err_0 is TrailersExpected,
            // No failure is passed over.
            event is Failed ==> r is Err && r->Err_0 is Failed,
    {
        match event {
            EchoEventOf::RequestBodyWrite => Ok(EchoCommand::CloseRequestBody),
            EchoEventOf::RequestTrailersWrite => Ok(EchoCommand::Wait),
            EchoEventOf::Response(response) => self.respond(response),
            EchoEventOf::ResponseBodyRead(Some(chunk)) => {
                let mut chunk = chunk;
                self.response_body.append(&mut chunk);
                Ok(EchoCommand::ReadBody)
            },
            EchoEventOf::ResponseBodyRead(None) => {
                if self.use_compression {
                    match inflate(self.response_body.as_slice()) {
                        Ok(bytes) => self.accept_body(&bytes),
                        Err(error) => Err(EchoErrorOf::Codec(error)),
                    }
                } else {
                    let bytes = self.response_body.clone();
                    assert(bytes@ =~= self.response_body@);
                    self.accept_body(&bytes)
                }
            },
            EchoEventOf::ResponseTrailersRead(Some(fields)) => {
                proof {
                    lemma_one_field(("fizz"@, encode_utf8("buzz"@)), field_views(fields@));
                }
                if !carries_each(&request_trailers(), &fields) {
                    return Err(EchoErrorOf::TrailersMissing);
                }
                self.received_trailers = true;
                Ok(EchoCommand::Wait)
            },
            EchoEventOf::ResponseTrailersRead(None) => Err(EchoErrorOf::TrailersExpected),
            EchoEventOf::Failed => Err(EchoErrorOf::Failed),
        }
    }

    fn respond(&mut self, response: Response) -> (r: Result<EchoCommand, EchoError>)
        ensures
            agrees(
                old(self)@,
                final(self)@,
                r,
                next(old(self)@, EchoEventOf::Response(response@)),
            ),
            ({
                let headers = field_views(response.headers@);
                if response.status_code != 200 {
                    r is Err && r->Err_0 == EchoError::Status(response.status_code)
                } else if !headers.contains(("foo"@, encode_utf8("bar"@))) {
                    r is Err && r->Err_0 is HeadersMissing
                } else if old(self)@.use_compression && !headers.contains(
                    ("content-encoding"@, encode_utf8("deflate"@)),
                ) {
                    r is Err && r->Err_0 is NotCompressed
                } else if !response.has_body {
                    r is Err && r->Err_0 is NoBody
                } else {
                    &&& r is Ok && r->Ok_0 is ReadBody
                    &&& final(self)@ == (EchoView {
                        response_trailers: response.has_trailers,
                        ..old(self)@
                    })
                }
            }),
    {
        proof {
            lemma_one_field(("foo"@, encode_utf8("bar"@)), field_views(response.headers@));
        }
        if response.status_code != 200 {
            return Err(EchoErrorOf::Status(response.status_code));
        }
        if !carries_each(&required_headers(), &response.headers) {
            return Err(EchoErrorOf::HeadersMissing);
        }
        if self.use_compression && !carries(
            &response.headers,
            &field("content-encoding", "deflate"),
        ) {
            return Err(EchoErrorOf::NotCompressed);
        }
        if !response.has_body {
            return Err(EchoErrorOf::NoBody);
        }
        self.response_trailers = response.has_trailers;
        Ok(EchoCommand::ReadBody)
    }

    /// Goes on when the whole body has come and been decoded to `bytes`.
    pub fn accept_body(&mut self, bytes: &Vec<u8>) -> (r: Result<EchoCommand, EchoError>)
        ensures
            agrees(old(self)@, final(self)@, r, on_body(old(self)@, bytes@)),
            r is Err ==> final(self)@ == old(self)@,
            if bytes@ != encode_utf8("And the mome raths outgrabe"@) {
                r is Err && r->Err_0 is BodyMismatch
            } else if !old(self)@.response_trailers {
                r is Err && r->Err_0 is NoTrailers
            } else {
                &&& r is Ok && r->Ok_0 is ReadTrailers
                &&& final(self)@ == (EchoView { response_trailers: false, ..old(self)@ })
            },
    {
        if !same_bytes(bytes, &plain_body()) {
            return Err(EchoErrorOf::BodyMismatch);
        }
        if !self.response_trailers {
            return Err(EchoErrorOf::NoTrailers);
        }
        self.response_trailers = false;
        Ok(EchoCommand::ReadTrailers)
    }

    /// Whether the trailers have come back, as they have at the end of a check
    /// that passes.
    pub fn received_trailers(&self) -> (r: bool)
        ensures
            r == self@.received_trailers,
    {
        self.received_trailers
    }
}

/// The state of a check that began at `state`, after `events`, or why it failed.
pub open spec fn after(state: EchoView, events: Seq<EchoEventView>) -> Result<
    EchoView,
    EchoErrorOf<()>,
>
    decreases events.len(),
{
    if events.len() == 0 {
        Ok(state)
    } else {
        match after(state, events.drop_last()) {
            Ok(before) => match next(before, events.last()) {
                Ok((now, _)) => Ok(now),
                Err(error) => Err(error),
            },
            Err(error) => Err(error),
        }
    }
}

/// The bytes of `chunks`, one after the other.
pub open spec fn joined(chunks: Seq<Seq<u8>>) -> Seq<u8>
    decreases chunks.len(),
{
    if chunks.len() == 0 {
        Seq::empty()
    } else {
        joined(chunks.drop_last()) + chunks.last()
    }
}

/// What happens when `response` comes and its body in `chunks`.
pub open spec fn response_events(response: ResponseView, chunks: Seq<Seq<u8>>) -> Seq<
    EchoEventView,
>
    decreases chunks.len(),
{
    if chunks.len() == 0 {
        seq![EchoEventOf::Response(response)]
    } else {
        response_events(response, chunks.drop_last()).push(
            EchoEventOf::ResponseBodyRead(Some(chunks.last())),
        )
    }
}

/// The operations of a check that have begun and not ended.
pub struct UnderWay {
    /// The body of the request is being written.
    pub request_body: bool,
    /// The trailers of the request are being written.
    pub request_trailers: bool,
    /// The component is being called.
    pub response: bool,
    /// The response's body is being read.
    pub body: bool,
    /// The response's trailers are being read.
    pub trailers: bool,
}

/// What is under way when a check begins: the request is being written, and the
/// component called.
pub open spec fn first_under_way() -> UnderWay {
    UnderWay {
        request_body: true,
        request_trailers: true,
        response: true,
        body: false,
        trailers: false,
    }
}

/// Whether `event` tells of the end of something that is under way.  Whatever is
/// under way can fail.
pub open spec fn awaited(u: UnderWay, event: EchoEventView) -> bool {
    match event {
        EchoEventOf::RequestBodyWrite => u.request_body,
        EchoEventOf::RequestTrailersWrite => u.request_trailers,
        EchoEventOf::Response(_) => u.response,
        EchoEventOf::ResponseBodyRead(_) => u.body,
        EchoEventOf::ResponseTrailersRead(_) => u.trailers,
        EchoEventOf::Failed => u.request_body || u.request_trailers || u.response || u.body
            || u.trailers,
    }
}

/// What is under way once `event` has told of an end and `command` was given.
pub open spec fn then_under_way(
    u: UnderWay,
    event: EchoEventView,
    command: EchoCommand,
) -> UnderWay {
    let rest = match event {
        EchoEventOf::RequestBodyWrite => UnderWay { request_body: false, ..u },
        EchoEventOf::RequestTrailersWrite => UnderWay { request_trailers: false, ..u },
        EchoEventOf::Response(_) => UnderWay { response: false, ..u },
        EchoEventOf::ResponseBodyRead(_) => UnderWay { body: false, ..u },
        EchoEventOf::ResponseTrailersRead(_) => UnderWay { trailers: false, ..u },
        EchoEventOf::Failed => u,
    };
    match command {
        EchoCommand::Wait | EchoCommand::CloseRequestBody => rest,
        EchoCommand::ReadBody => UnderWay { body: true, ..rest },
        EchoCommand::ReadTrailers => UnderWay { trailers: true, ..rest },
    }
}

/// What is under way after `events` in a check that has not failed.
pub open spec fn under_way(use_compression: bool, events: Seq<EchoEventView>) -> UnderWay
    decreases events.len(),
{
    if events.len() == 0 {
        first_under_way()
    } else {
        let before = events.drop_last();
        match after(new_check(use_compression), before) {
            Ok(state) => match next(state, events.last()) {
                Ok((_, command)) => then_under_way(
                    under_way(use_compression, before),
                    events.last(),
                    command,
                ),
                Err(_) => under_way(use_compression, before),
            },
            Err(_) => under_way(use_compression, before),
        }
    }
}

/// Whether `events` can happen in a check one after the other: each tells of the
/// end of something that had begun, and nothing happens in a check that failed.
pub open spec fn possible(use_compression: bool, events: Seq<EchoEventView>) -> bool
    decreases events.len(),
{
    events.len() > 0 ==> {
        &&& possible(use_compression, events.drop_last())
        &&& after(new_check(use_compression), events.drop_last()) is Ok
        &&& awaited(under_way(use_compression, events.drop_last()), events.last())
    }
}

/// What the component did in the course of `events`: all but the writes of the
/// request.
pub open spec fn without_writes(events: Seq<EchoEventView>) -> Seq<EchoEventView>
    decreases events.len(),
{
    if events.len() == 0 {
        Seq::empty()
    } else {
        match events.last() {
            EchoEventOf::RequestBodyWrite | EchoEventOf::RequestTrailersWrite => without_writes(
                events.drop_last(),
            ),
            _ => without_writes(events.drop_last()).push(events.last()),
        }
    }
}

/// What happens when `response` comes, its body in `chunks`, and the trailers
/// `fields`.
pub open spec fn echo_events(
    response: ResponseView,
    chunks: Seq<Seq<u8>>,
    fields: Seq<FieldView>,
) -> Seq<EchoEventView> {
    response_events(response, chunks).push(EchoEventOf::ResponseBodyRead(None)).push(
        EchoEventOf::ResponseTrailersRead(Some(fields)),
    )
}

/// Whether such a response echoes the request.
pub open spec fn is_echo(
    use_compression: bool,
    response: ResponseView,
    chunks: Seq<Seq<u8>>,
    fields: Seq<FieldView>,
) -> bool {
    &&& refusal(use_compression, response) is None
    &&& response.has_trailers
    &&& decoded(use_compression, joined(chunks)) == Some(body())
    &&& carries_all(trailers(), fields)
}

/// The check has kept the bytes that came.
proof fn lemma_body_so_far(use_compression: bool, response: ResponseView, chunks: Seq<Seq<u8>>)
    requires
        refusal(use_compression, response) is None,
    ensures
        after(new_check(use_compression), response_events(response, chunks)) == Ok::<
            _,
            EchoErrorOf<()>,
        >(
            EchoView {
                response_body: joined(chunks),
                response_trailers: response.has_trailers,
                ..new_check(use_compression)
            },
        ),
        possible(use_compression, response_events(response, chunks)),
        under_way(use_compression, response_events(response, chunks)) == (UnderWay {
            response: false,
            body: true,
            ..first_under_way()
        }),
    decreases chunks.len(),
{
    let events = response_events(response, chunks);
    if chunks.len() == 0 {
        assert(events.drop_last() =~= Seq::empty());
        assert(after(new_check(use_compression), events.drop_last()) == Ok::<_, EchoErrorOf<()>>(
            new_check(use_compression),
        ));
        assert(possible(use_compression, events.drop_last()));
        assert(under_way(use_compression, events.drop_last()) == first_under_way());
    } else {
        lemma_body_so_far(use_compression, response, chunks.drop_last());
        assert(events.drop_last() =~= response_events(response, chunks.drop_last()));
    }
}

/// A component that echoes passes the check, compressed or not: if the response
/// has status 200, the header `foo` and, for a compressed request, the header that
/// says that it is compressed, whatever else it has or lacks; if its body, in
/// pieces of any size, stands for the body of the request; and if its trailers
/// carry that of the request.  What [`request_body`] gives stands for that body, so a
/// component may send back the very bytes that it was sent.
pub proof fn law_echo_passes(
    use_compression: bool,
    response: ResponseView,
    chunks: Seq<Seq<u8>>,
    fields: Seq<FieldView>,
)
    requires
        response.status_code == 200,
        response.headers.contains(("foo"@, encode_utf8("bar"@))),
        use_compression ==> response.headers.contains(
            ("content-encoding"@, encode_utf8("deflate"@)),
        ),
        response.has_body,
        response.has_trailers,
        use_compression ==> inflated(joined(chunks)) == Some(
            encode_utf8("And the mome raths outgrabe"@),
        ),
        !use_compression ==> joined(chunks) == encode_utf8("And the mome raths outgrabe"@),
        fields.contains(("fizz"@, encode_utf8("buzz"@))),
    ensures
        possible(use_compression, echo_events(response, chunks, fields)),
        after(new_check(use_compression), echo_events(response, chunks, fields)) == Ok::<
            _,
            EchoErrorOf<()>,
        >(
            EchoView {
                use_compression,
                response_body: joined(chunks),
                response_trailers: false,
                received_trailers: true,
            },
        ),
{
    lemma_one_field(("foo"@, encode_utf8("bar"@)), response.headers);
    lemma_one_field(("fizz"@, encode_utf8("buzz"@)), fields);
    lemma_body_so_far(use_compression, response, chunks);
    let read = response_events(response, chunks);
    let ended = read.push(EchoEventOf::ResponseBodyRead(None));
    let all = ended.push(EchoEventOf::ResponseTrailersRead(Some(fields)));
    assert(ended.drop_last() =~= read);
    assert(all.drop_last() =~= ended);
    assert(after(new_check(use_compression), ended) == Ok::<_, EchoErrorOf<()>>(
        EchoView { response_body: joined(chunks), ..new_check(use_compression) },
    ));
    assert(possible(use_compression, ended));
    assert(under_way(use_compression, ended).trailers);
}

/// When the request is taken does not matter: the check comes to the same.
pub proof fn law_request_writes_do_not_matter(
    state: EchoView,
    before: Seq<EchoEventView>,
    write: EchoEventView,
    rest: Seq<EchoEventView>,
)
    requires
        write is RequestBodyWrite || write is RequestTrailersWrite,
    ensures
        after(state, before.push(write) + rest) == after(state, before + rest),
    decreases rest.len(),
{
    if rest.len() == 0 {
        assert(before.push(write) + rest =~= before.push(write));
        assert(before.push(write).drop_last() =~= before);
        assert(before + rest =~= before);
    } else {
        assert((before.push(write) + rest).drop_last() =~= before.push(write) + rest.drop_last());
        assert((before + rest).drop_last() =~= before + rest.drop_last());
        law_request_writes_do_not_matter(state, before, write, rest.drop_last());
    }
}

/// The bytes of the response's body that came in the course of `events`.
pub open spec fn body_in(events: Seq<EchoEventView>) -> Seq<u8>
    decreases events.len(),
{
    if events.len() == 0 {
        Seq::empty()
    } else {
        match events.last() {
            EchoEventOf::ResponseBodyRead(Some(chunk)) => body_in(events.drop_last()) + chunk,
            _ => body_in(events.drop_last()),
        }
    }
}

/// Whether the event at `i` is as it has to be.
pub open spec fn passes(use_compression: bool, events: Seq<EchoEventView>, i: int) -> bool {
    match events[i] {
        EchoEventOf::Response(response) => refusal(use_compression, response) is None,
        EchoEventOf::ResponseBodyRead(None) => decoded(use_compression, body_in(events.take(i)))
            == Some(body()),
        EchoEventOf::ResponseTrailersRead(None) | EchoEventOf::Failed => false,
        EchoEventOf::ResponseTrailersRead(Some(fields)) => carries_all(trailers(), fields),
        _ => true,
    }
}

/// Nothing wrong is passed over: in a check that has not failed, no operation did,
/// every response had status 200 and the headers it should have, every body that
/// ended was the body of the request, and all trailers carried those of the
/// request.  The check knows of trailers exactly if they came.
pub proof fn law_nothing_is_passed_over(use_compression: bool, events: Seq<EchoEventView>)
    requires
        after(new_check(use_compression), events) is Ok,
    ensures
        forall|i: int| 0 <= i < events.len() ==> #[trigger] passes(use_compression, events, i),
        ({
            let state = after(new_check(use_compression), events)->Ok_0;
            &&& state.use_compression == use_compression
            &&& state.response_body == body_in(events)
            &&& state.received_trailers <==> exists|i: int|
                0 <= i < events.len() && (#[trigger] events[i]) is ResponseTrailersRead
        }),
    decreases events.len(),
{
    if events.len() > 0 {
        let before = events.drop_last();
        let n = before.len() as int;
        law_nothing_is_passed_over(use_compression, before);
        assert forall|i: int| 0 <= i < events.len() implies #[trigger] passes(
            use_compression,
            events,
            i,
        ) by {
            if i < n {
                assert(passes(use_compression, before, i));
                assert(before.take(i) =~= events.take(i));
            } else {
                assert(events.take(i) =~= before);
            }
        }
        let was = after(new_check(use_compression), before)->Ok_0;
        let state = after(new_check(use_compression), events)->Ok_0;
        if state.received_trailers {
            if was.received_trailers {
                let i = choose|i: int|
                    0 <= i < before.len() && (#[trigger] before[i]) is ResponseTrailersRead;
                assert(events[i] is ResponseTrailersRead);
            } else {
                assert(events[n] is ResponseTrailersRead);
            }
        }
        if exists|i: int| 0 <= i < events.len() && (#[trigger] events[i]) is ResponseTrailersRead {
            let i = choose|i: int|
                0 <= i < events.len() && (#[trigger] events[i]) is ResponseTrailersRead;
            if i < n {
                assert(before[i] is ResponseTrailersRead);
            }
        }
    }
}

/// How far a check has come that has not failed.  Returns the response, the pieces
/// of its body and its trailers, as far as they have come.
proof fn lemma_progress(use_compression: bool, events: Seq<EchoEventView>) -> (came: (
    ResponseView,
    Seq<Seq<u8>>,
    Seq<FieldView>,
))
    requires
        possible(use_compression, events),
        after(new_check(use_compression), events) is Ok,
    ensures
        ({
            let u = under_way(use_compression, events);
            let state = after(new_check(use_compression), events)->Ok_0;
            let did = without_writes(events);
            let (response, chunks, fields) = came;
            let read = response_events(response, chunks);
            &&& state.use_compression == use_compression
            &&& state.response_body == joined(chunks)
            &&& u.response ==> did.len() == 0 && chunks.len() == 0
            &&& u.response ==> !u.body && !u.trailers && !state.received_trailers
            &&& !u.response ==> refusal(use_compression, response) is None
            &&& u.body ==> did == read && !u.trailers && !state.received_trailers
                && state.response_trailers == response.has_trailers
            &&& u.trailers ==> did == read.push(EchoEventOf::ResponseBodyRead(None))
                && !state.received_trailers
            &&& u.trailers || state.received_trailers ==> response.has_trailers && decoded(
                use_compression,
                joined(chunks),
            ) == Some(body())
            &&& state.received_trailers ==> did == echo_events(response, chunks, fields)
                && carries_all(trailers(), fields)
            &&& u.response || u.body || u.trailers || state.received_trailers
        }),
    decreases events.len(),
{
    if events.len() == 0 {
        (arbitrary(), Seq::empty(), Seq::empty())
    } else {
        let before = events.drop_last();
        let (response, chunks, fields) = lemma_progress(use_compression, before);
        match events.last() {
            EchoEventOf::Response(response) => {
                assert(chunks =~= Seq::empty());
                assert(without_writes(events) =~= response_events(response, chunks));
                (response, chunks, fields)
            },
            EchoEventOf::ResponseBodyRead(Some(chunk)) => {
                assert(chunks.push(chunk).drop_last() =~= chunks);
                (response, chunks.push(chunk), fields)
            },
            EchoEventOf::ResponseTrailersRead(Some(fields)) => (response, chunks, fields),
            _ => (response, chunks, fields),
        }
    }
}

/// Nothing but an echo passes: a check that has the trailers has been answered
/// with an accepted response, then with pieces that stand for the body of the
/// request, then with the end of the body, then with trailers that carry those of
/// the request, and with nothing else.  A check that has not failed and has
/// nothing under way has the trailers.
pub proof fn law_only_an_echo_passes(use_compression: bool, events: Seq<EchoEventView>)
    requires
        possible(use_compression, events),
        after(new_check(use_compression), events) is Ok,
    ensures
        ({
            let u = under_way(use_compression, events);
            let state = after(new_check(use_compression), events)->Ok_0;
            &&& state.received_trailers ==> exists|
                response: ResponseView,
                chunks: Seq<Seq<u8>>,
                fields: Seq<FieldView>,
            |
                is_echo(use_compression, response, chunks, fields) && without_writes(events)
                    == #[trigger] echo_events(response, chunks, fields)
            &&& !u.response && !u.body && !u.trailers ==> state.received_trailers
        }),
{
    let (response, chunks, fields) = lemma_progress(use_compression, events);
    if after(new_check(use_compression), events)->Ok_0.received_trailers {
        assert(is_echo(use_compression, response, chunks, fields));
        assert(without_writes(events) == echo_events(response, chunks, fields));
    }
}

/// A response is accepted exactly if it has status 200, a body, the header `foo` and,
/// if the request was compressed, the header that says that it is compressed.
/// Other headers do not matter: not those that it has, nor those of the request
/// that it lacks.
pub proof fn law_which_responses_are_accepted(
    state: EchoView,
    response: ResponseView,
    others: Seq<FieldView>,
)
    ensures
        next(state, EchoEventOf::Response(response)) is Ok <==> {
            &&& response.status_code == 200
            &&& response.headers.contains(("foo"@, encode_utf8("bar"@)))
            &&& state.use_compression ==> response.headers.contains(
                ("content-encoding"@, encode_utf8("deflate"@)),
            )
            &&& response.has_body
        },
        next(state, EchoEventOf::Response(response)) is Ok ==> next(
            state,
            EchoEventOf::Response(ResponseView { headers: response.headers + others, ..response }),
        ) == next(state, EchoEventOf::Response(response)),
        next(state, EchoEventOf::Response(response)) is Ok ==> next(
            state,
            EchoEventOf::Response(
                ResponseView {
                    headers: seq![
                        ("foo"@, encode_utf8("bar"@)),
                        ("content-encoding"@, encode_utf8("deflate"@)),
                    ],
                    ..response
                },
            ),
        ) == next(state, EchoEventOf::Response(response)),
{
    let foo = ("foo"@, encode_utf8("bar"@));
    let deflate = ("content-encoding"@, encode_utf8("deflate"@));
    let all = response.headers + others;
    lemma_one_field(foo, response.headers);
    lemma_one_field(foo, all);
    lemma_one_field(foo, seq![foo, deflate]);
    if response.headers.contains(foo) {
        let i = choose|i: int| 0 <= i < response.headers.len() && response.headers[i] == foo;
        assert(all[i] == foo);
    }
    if response.headers.contains(deflate) {
        let i = choose|i: int| 0 <= i < response.headers.len() && response.headers[i] == deflate;
        assert(all[i] == deflate);
    }
    assert(seq![foo, deflate][0] == foo);
    assert(seq![foo, deflate][1] == deflate);
}

/// A check goes on exactly if what came is what it should be, in whatever state it
/// is: the body that came, decoded if the request was compressed, is the body of the
/// request and trailers are to follow it, the trailers carry that of the request,
/// and nothing failed.  What is done then is settled by what came.
pub proof fn law_when_a_check_goes_on(state: EchoView, event: EchoEventView)
    ensures
        match event {
            EchoEventOf::RequestBodyWrite | EchoEventOf::RequestTrailersWrite
            | EchoEventOf::ResponseBodyRead(Some(_)) => next(state, event) is Ok,
            EchoEventOf::Response(_) => true,
            EchoEventOf::ResponseBodyRead(None) => next(state, event) is Ok <==> {
                &&& state.use_compression ==> inflated(state.response_body) == Some(
                    encode_utf8("And the mome raths outgrabe"@),
                )
                &&& !state.use_compression ==> state.response_body == encode_utf8(
                    "And the mome raths outgrabe"@,
                )
                &&& state.response_trailers
            },
            EchoEventOf::ResponseTrailersRead(Some(fields)) => next(state, event) is Ok
                <==> fields.contains(("fizz"@, encode_utf8("buzz"@))),
            EchoEventOf::ResponseTrailersRead(None) | EchoEventOf::Failed => next(
                state,
                event,
            ) is Err,
        },
        next(state, event) matches Ok((now, command)) ==> {
            &&& command == match event {
                EchoEventOf::RequestBodyWrite => EchoCommand::CloseRequestBody,
                EchoEventOf::RequestTrailersWrite => EchoCommand::Wait,
                EchoEventOf::Response(_) => EchoCommand::ReadBody,
                EchoEventOf::ResponseBodyRead(Some(_)) => EchoCommand::ReadBody,
                EchoEventOf::ResponseBodyRead(None) => EchoCommand::ReadTrailers,
                EchoEventOf::ResponseTrailersRead(_) | EchoEventOf::Failed => EchoCommand::Wait,
            }
            &&& now.use_compression == state.use_compression
            &&& now.response_body == match event {
                EchoEventOf::ResponseBodyRead(Some(chunk)) => state.response_body + chunk,
                _ => state.response_body,
            }
            &&& now.response_trailers == match event {
                EchoEventOf::Response(response) => response.has_trailers,
                EchoEventOf::ResponseBodyRead(None) => false,
                _ => state.response_trailers,
            }
            &&& now.received_trailers == (state.received_trailers || event is ResponseTrailersRead)
        },
{
    if let EchoEventOf::ResponseTrailersRead(Some(fields)) = event {
        lemma_one_field(("fizz"@, encode_utf8("buzz"@)), fields);
    }
}

/// In a check that has not failed no operation failed.
pub proof fn law_no_failure_is_passed_over(state: EchoView, events: Seq<EchoEventView>)
    requires
        after(state, events) is Ok,
    ensures
        forall|i: int| 0 <= i < events.len() ==> !(#[trigger] events[i] is Failed),
    decreases events.len(),
{
    if events.len() > 0 {
        law_no_failure_is_passed_over(state, events.drop_last());
        assert forall|i: int| 0 <= i < events.len() implies !(#[trigger] events[i] is Failed) by {
            if i < events.len() - 1 {
                assert(events.drop_last()[i] == events[i]);
            }
        }
    }
}

/// The views of fields and responses keep all of them, one for one.
pub proof fn law_views_are_faithful(fields: Seq<Field>, response: Response)
    ensures
        field_views(fields).len() == fields.len(),
        forall|i: int|
            0 <= i < fields.len() ==> field_views(fields)[i] == ((#[trigger] fields[i]).0@, fields[i].1@),
        response@.status_code == response.status_code,
        response@.headers == field_views(response.headers@),
        response@.has_body == response.has_body,
        response@.has_trailers == response.has_trailers,
{
}

} // verus!
