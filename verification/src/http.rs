//! Building an HTTP request: method, url, a header map and an optional body,
//! checked and handed to a client as plain parts.
use crate::keyed::{insert_key, keyed_map, keys_unique};
use crate::text::owned;
use vstd::prelude::*;

verus! {

/// Why a request could not be made.
#[derive(Debug, Clone, Copy, PartialEq, Eq, Structural)]
pub enum RequestError {
    MissingParams,
    InvalidResponse,
}

impl RequestError {
    /// The error's text.
    pub fn message(&self) -> (r: String)
        ensures
            *self == RequestError::MissingParams ==> r@ == "Missing uri and method params"@,
            *self == RequestError::InvalidResponse ==> r@ == "Invalid response"@,
    {
        match self {
            RequestError::MissingParams => owned("Missing uri and method params"),
            RequestError::InvalidResponse => owned("Invalid response"),
        }
    }
}

/// A body of a kind the client cannot send.
#[derive(Debug, Clone, Copy, PartialEq, Eq, Structural)]
pub struct BodyError();

impl BodyError {
    /// The error's text.
    pub fn message(&self) -> (r: String)
        ensures
            r@ == "Invalid body"@,
    {
        owned("Invalid body")
    }
}

/// A body the client sends.
#[derive(Debug, Clone, PartialEq, Eq)]
pub enum Body {
    Bytes(Vec<u8>),
    Text(String),
    Static(&'static [u8]),
}

/// A value that can be sent as a request body.
pub trait HttpBody: Sized {
    /// The body this value is sent as; `None` where the client has no way to
    /// send it.
    spec fn body_spec(&self) -> Option<Body>;

    fn into_body(self) -> (r: Option<Body>)
        ensures
            r == self.body_spec(),
    ;
}

impl HttpBody for Vec<u8> {
    open spec fn body_spec(&self) -> Option<Body> {
        Some(Body::Bytes(*self))
    }

    fn into_body(self) -> (r: Option<Body>) {
        Some(Body::Bytes(self))
    }
}

impl HttpBody for String {
    open spec fn body_spec(&self) -> Option<Body> {
        Some(Body::Text(*self))
    }

    fn into_body(self) -> (r: Option<Body>) {
        Some(Body::Text(self))
    }
}

impl HttpBody for &'static [u8] {
    open spec fn body_spec(&self) -> Option<Body> {
        Some(Body::Static(*self))
    }

    fn into_body(self) -> (r: Option<Body>) {
        Some(Body::Static(self))
    }
}

/// Why a built request was refused.
#[derive(Debug, Clone, Copy, PartialEq, Eq, Structural)]
pub enum PrepareError {
    Request(RequestError),
    Body(BodyError),
}

/// What a client is asked to send.
pub struct PreparedRequest<C> {
    pub client: C,
    pub method: String,
    pub url: String,
    /// Each header name once.
    pub headers: Vec<(String, String)>,
    pub body: Option<Body>,
}

/// A request under construction. Header names are kept once each; setting a
/// header again replaces its value.
pub struct HttpRequestBuilder<C> {
    client: C,
    method: Option<String>,
    url: Option<String>,
    headers: Vec<(String, String)>,
    /// `None`: no body; `Some(None)`: a body the client cannot send.
    body: Option<Option<Body>>,
}

impl<C> HttpRequestBuilder<C> {
    #[verifier::type_invariant]
    spec fn headers_unique(self) -> bool {
        keys_unique(self.headers@)
    }

    pub closed spec fn client_of(self) -> C {
        self.client
    }

    pub closed spec fn method_of(self) -> Option<Seq<char>> {
        match self.method {
            Some(m) => Some(m@),
            None => None,
        }
    }

    pub closed spec fn url_of(self) -> Option<Seq<char>> {
        match self.url {
            Some(u) => Some(u@),
            None => None,
        }
    }

    /// The headers, by name.
    pub closed spec fn headers_of(self) -> Map<Seq<char>, Seq<char>> {
        keyed_map(self.headers@).map_values(|v: String| v@)
    }

    /// `None`: no body set; `Some(b)`: the body set, as `HttpBody::body_spec`
    /// gives it.
    pub closed spec fn body_of(self) -> Option<Option<Body>> {
        self.body
    }

    /// A request with the given method and url, no header and no body.
    pub fn new(client: C, method: &str, url: &str) -> (r: Self)
        ensures
            r.client_of() == client,
            r.method_of() == Some(method@),
            r.url_of() == Some(url@),
            r.headers_of() == Map::<Seq<char>, Seq<char>>::empty(),
            r.body_of() is None,
    {
        let r = HttpRequestBuilder {
            client,
            method: Some(owned(method)),
            url: Some(owned(url)),
            headers: Vec::new(),
            body: None,
        };
        proof {
            assert(r.headers_of() =~= Map::<Seq<char>, Seq<char>>::empty());
        }
        r
    }

    /// Sets header `key` to `value`, replacing an earlier value.
    pub fn set_header(self, key: &str, value: &str) -> (r: Self)
        ensures
            r.client_of() == self.client_of(),
            r.method_of() == self.method_of(),
            r.url_of() == self.url_of(),
            r.headers_of() == self.headers_of().insert(key@, value@),
            r.body_of() == self.body_of(),
    {
        proof {
            use_type_invariant(&self);
        }
        let HttpRequestBuilder { client, method, url, mut headers, body } = self;
        let ghost h0 = headers@;
        insert_key(&mut headers, owned(key), owned(value));
        let r = HttpRequestBuilder { client, method, url, headers, body };
        proof {
            assert(r.headers_of() =~= self.headers_of().insert(key@, value@));
        }
        r
    }

    /// Sets the body.
    pub fn set_body<B: HttpBody>(self, body: B) -> (r: Self)
        ensures
            r.client_of() == self.client_of(),
            r.method_of() == self.method_of(),
            r.url_of() == self.url_of(),
            r.headers_of() == self.headers_of(),
            r.body_of() == Some(body.body_spec()),
    {
        proof {
            use_type_invariant(&self);
        }
        let HttpRequestBuilder { client, method, url, headers, body: _ } = self;
        let b = body.into_body();
        HttpRequestBuilder { client, method, url, headers, body: Some(b) }
    }

    /// The parts a client sends: `MissingParams` without a method or url,
    /// `BodyError` for a body the client cannot send.
    pub fn into_request(self) -> (r: Result<PreparedRequest<C>, PrepareError>)
        ensures
            (self.method_of() is None || self.url_of() is None) ==> r == Err::<PreparedRequest<C>, PrepareError>(
                PrepareError::Request(RequestError::MissingParams),
            ),
            (self.method_of() is Some && self.url_of() is Some && self.body_of() == Some(
                None::<Body>,
            )) ==> r == Err::<PreparedRequest<C>, PrepareError>(PrepareError::Body(BodyError())),
            (self.method_of() is Some && self.url_of() is Some && self.body_of() != Some(
                None::<Body>,
            )) ==> (r matches Ok(p) && {
                &&& p.client == self.client_of()
                &&& Some(p.method@) == self.method_of()
                &&& Some(p.url@) == self.url_of()
                &&& keys_unique(p.headers@)
                &&& keyed_map(p.headers@).map_values(|v: String| v@) == self.headers_of()
                &&& p.body == match self.body_of() {
                    Some(b) => b,
                    None => None::<Body>,
                }
            }),
    {
        proof {
            use_type_invariant(&self);
        }
        let HttpRequestBuilder { client, method, url, headers, body } = self;
        match (method, url) {
            (Some(method), Some(url)) => {
                let body = match body {
                    None => None,
                    Some(None) => {
                        return Err(PrepareError::Body(BodyError()));
                    },
                    Some(Some(b)) => Some(b),
                };
                Ok(PreparedRequest { client, method, url, headers, body })
            },
            _ => Err(PrepareError::Request(RequestError::MissingParams)),
        }
    }
}

} // verus!
