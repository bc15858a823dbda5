//! The builders: one for an endpoint, and one for the requests of each
//! method.

use crate::address::{parse, parsed_url};
use crate::error::Error;
use crate::fields::{put_absent, Fields};
use crate::http;
use crate::http::{fresh, request_url, Exchange, RequestView, USER_AGENT};
use crate::serializer::{json_object, ToJsonString};
use crate::template::{resolve, resolved, route, route_of};
use std::time::Duration;
use vstd::prelude::*;
use vstd::string::*;

verus! {

/// The span of `secs` whole seconds.
pub uninterp spec fn seconds(secs: u64) -> Duration;

/// Calls `Duration::from_secs`: the span of `secs` whole seconds.
#[verifier::external_body]
fn from_secs(secs: u64) -> (d: Duration)
    ensures
        d == seconds(secs),
{
    Duration::from_secs(secs)
}

/// The settings of an endpoint while they are put together.
pub struct EndpointBuilder {
    pub url: String,
    pub timeout: Duration,
    pub header: Fields,
}

/// A configured endpoint.
pub struct Endpoint {
    inner: http::Endpoint,
}

/// Builds a GET request.
pub struct GetBuilder {
    pub path: String,
    pub urlsegment: Fields,
    pub parameter: Fields,
    pub header: Fields,
}

/// Builds a POST request.
pub struct PostBuilder {
    pub path: String,
    pub parameter: Fields,
    pub header: Fields,
}

/// Builds a PUT request.
pub struct PutBuilder {
    pub path: String,
    pub parameter: Fields,
    pub header: Fields,
}

/// Builds a PATCH request.
pub struct PatchBuilder {
    pub path: String,
    pub urlsegment: Fields,
    pub parameter: Fields,
    pub header: Fields,
}

/// Builds a DELETE request.
pub struct DeleteBuilder {
    pub path: String,
    pub urlsegment: Fields,
    pub header: Fields,
}

/// A request as the builders make it.
#[derive(Debug)]
pub struct Request {
    inner: http::Request,
}

/// Header fields to go with one exchange.
pub struct Header {
    pub header: Fields,
}

/// The caller's side of an exchange.
pub struct Client;

/// The request methods.
#[derive(Debug, Clone, Copy, PartialEq, Eq, Structural)]
pub enum Method {
    Get,
    Post,
    Patch,
    Put,
    Delete,
    Options,
    Head,
    Trace,
}

impl Method {
    /// The method that goes by the same name.
    pub fn from_http(method: &http::Method) -> (m: Method)
        ensures
            m == Method::of(*method),
    {
        match *method {
            http::Method::Get => Method::Get,
            http::Method::Post => Method::Post,
            http::Method::Patch => Method::Patch,
            http::Method::Put => Method::Put,
            http::Method::Delete => Method::Delete,
            http::Method::Options => Method::Options,
            http::Method::Head => Method::Head,
            http::Method::Trace => Method::Trace,
        }
    }

    /// The method that goes by the same name.
    pub open spec fn of(method: http::Method) -> Method {
        match method {
            http::Method::Get => Method::Get,
            http::Method::Post => Method::Post,
            http::Method::Patch => Method::Patch,
            http::Method::Put => Method::Put,
            http::Method::Delete => Method::Delete,
            http::Method::Options => Method::Options,
            http::Method::Head => Method::Head,
            http::Method::Trace => Method::Trace,
        }
    }
}

impl Endpoint {
    /// Starts the settings of an endpoint: no address yet, ten seconds of
    /// timeout, no header fields.
    pub fn configure() -> (b: EndpointBuilder)
        ensures
            b.url@ == Seq::<char>::empty(),
            b.timeout == seconds(10),
            b.header@ == Seq::<(Seq<char>, Seq<char>)>::empty(),
    {
        EndpointBuilder { url: String::new(), timeout: from_secs(10), header: Fields::new() }
    }

    /// The endpoint that `builder` describes.
    fn new(builder: &EndpointBuilder) -> (e: Endpoint)
        requires
            parsed_url(builder.url@) is Ok,
        ensures
            parsed_url(builder.url@) == Ok::<Seq<char>, url::ParseError>(e.address()),
            e.settings() == http::Endpoint::connector_of(builder.timeout),
            e.fields() == builder.header@,
    {
        Endpoint {
            inner: http::Endpoint::new(builder.url.clone(), builder.timeout, builder.header.clone()),
        }
    }

    /// The address, as a URL in its serialized form.
    pub closed spec fn address(&self) -> Seq<char> {
        self.inner.address()
    }

    /// How connections are kept.
    pub closed spec fn settings(&self) -> http::Connector {
        self.inner.settings()
    }

    /// The header fields that go with every request.
    pub closed spec fn fields(&self) -> Seq<(Seq<char>, Seq<char>)> {
        self.inner.fields()
    }

    /// The endpoint as the transport needs it.
    pub fn inner(&self) -> (e: &http::Endpoint)
        ensures
            e.address() == self.address(),
            e.settings() == self.settings(),
            e.fields() == self.fields(),
    {
        &self.inner
    }
}

impl EndpointBuilder {
    /// Puts `url` at the end of the address.
    pub fn url(&mut self, url: &str) -> (ret: &mut EndpointBuilder)
        ensures
            ret.url@ == old(self).url@ + url@,
            ret.timeout == old(self).timeout,
            ret.header == old(self).header,
            *final(self) == *final(ret),
    {
        self.url.append(url);
        self
    }

    /// Sets the timeout.
    pub fn timeout(&mut self, timeout: Duration) -> (ret: &mut EndpointBuilder)
        ensures
            ret.timeout == timeout,
            ret.url == old(self).url,
            ret.header == old(self).header,
            *final(self) == *final(ret),
    {
        self.timeout = timeout;
        self
    }

    /// Takes a limit of `requests` per `timeout`. The limit is not kept: it
    /// is for the transport to enforce, and changes nothing here.
    pub fn request_limit(&mut self, requests: i32, timeout: Duration) -> (ret: &mut EndpointBuilder)
        ensures
            *ret == *old(self),
            *final(self) == *final(ret),
    {
        self
    }

    /// Adds the header field `header` with `value`, unless a field of that
    /// name has been added before.
    pub fn add_header(&mut self, header: &str, value: &str) -> (ret: &mut EndpointBuilder)
        ensures
            ret.header@ == put_absent(old(self).header@, header@, value@),
            ret.url == old(self).url,
            ret.timeout == old(self).timeout,
            *final(self) == *final(ret),
    {
        self.header.or_insert(header, value);
        self
    }

    /// The endpoint with these settings.
    pub fn build(&self) -> (e: Endpoint)
        requires
            parsed_url(self.url@) is Ok,
        ensures
            parsed_url(self.url@) == Ok::<Seq<char>, url::ParseError>(e.address()),
            e.settings() == http::Endpoint::connector_of(self.timeout),
            e.fields() == self.header@,
    {
        Endpoint::new(self)
    }

    /// The endpoint with these settings, or the error where the address is
    /// no absolute URL.
    pub fn try_build(&self) -> (r: Result<Endpoint, Error>)
        ensures
            match r {
                Ok(e) => parsed_url(self.url@) == Ok::<Seq<char>, url::ParseError>(e.address())
                    && e.settings() == http::Endpoint::connector_of(self.timeout) && e.fields()
                    == self.header@,
                Err(e) => parsed_url(self.url@) is Err && e == Error::UrlParseError(
                    parsed_url(self.url@)->Err_0,
                ),
            },
    {
        match parse(self.url.as_str()) {
            Ok(_) => Ok(self.build()),
            Err(e) => Err(Error::UrlParseError(e)),
        }
    }
}

impl Client {
    /// Prepares the exchange of `request` with `endpoint` for the transport:
    /// the URL to ask, and a fresh handler that holds a copy of the request.
    /// Where there is no URL to ask, the error says why.
    pub fn execute(endpoint: &Endpoint, request: &Request) -> (r: Result<Exchange, Error>)
        ensures
            match r {
                Ok(ex) => Some(ex.url@) == request_url(endpoint.address(), request@.route)
                    && ex.handler@ == fresh(request@) && ex.handler.agent() == USER_AGENT@,
                Err(e) => request_url(endpoint.address(), request@.route) is None
                    && e is UrlParseError,
            },
    {
        match http::Client::locate(endpoint.inner(), &request.inner) {
            Ok(_) => Ok(http::Client::request(endpoint.inner(), &request.inner)),
            Err(e) => Err(e),
        }
    }

    /// Prepares the exchange as `execute` does. The fields of `header` are
    /// not sent.
    pub fn execute_headers(endpoint: &Endpoint, request: &Request, header: &Header) -> (r: Result<
        Exchange,
        Error,
    >)
        ensures
            match r {
                Ok(ex) => Some(ex.url@) == request_url(endpoint.address(), request@.route)
                    && ex.handler@ == fresh(request@) && ex.handler.agent() == USER_AGENT@,
                Err(e) => request_url(endpoint.address(), request@.route) is None
                    && e is UrlParseError,
            },
    {
        Client::execute(endpoint, request)
    }
}

impl GetBuilder {
    /// A builder with an empty path, no segments and no parameters.
    pub fn new() -> (b: GetBuilder)
        ensures
            b.path@ == Seq::<char>::empty(),
            b.urlsegment@ == Seq::<(Seq<char>, Seq<char>)>::empty(),
            b.parameter@ == Seq::<(Seq<char>, Seq<char>)>::empty(),
            b.header@ == Seq::<(Seq<char>, Seq<char>)>::empty(),
    {
        GetBuilder {
            path: String::new(),
            urlsegment: Fields::new(),
            parameter: Fields::new(),
            header: Fields::new(),
        }
    }

    /// Sets the path, in place of the one given before.
    pub fn path(&mut self, path: &str) -> (ret: &mut GetBuilder)
        ensures
            ret.path@ == path@,
            ret.urlsegment == old(self).urlsegment,
            ret.parameter == old(self).parameter,
            ret.header == old(self).header,
            *final(self) == *final(ret),
    {
        self.path = path.to_owned();
        self
    }

    /// Takes a header field. It is not kept.
    pub fn add_header(&mut self, header: &str, value: &str) -> (ret: &mut GetBuilder)
        ensures
            *ret == *old(self),
            *final(self) == *final(ret),
    {
        self
    }

    /// Gives the placeholder `urlsegment` its value, unless it has one.
    pub fn add_urlsegment(&mut self, urlsegment: &str, value: &str) -> (ret: &mut GetBuilder)
        ensures
            ret.urlsegment@ == put_absent(old(self).urlsegment@, urlsegment@, value@),
            ret.path == old(self).path,
            ret.parameter == old(self).parameter,
            ret.header == old(self).header,
            *final(self) == *final(ret),
    {
        self.urlsegment.or_insert(urlsegment, value);
        self
    }

    /// Gives the query parameter `parameter` its value, unless it has one.
    pub fn add_parameter(&mut self, parameter: &str, value: &str) -> (ret: &mut GetBuilder)
        ensures
            ret.parameter@ == put_absent(old(self).parameter@, parameter@, value@),
            ret.path == old(self).path,
            ret.urlsegment == old(self).urlsegment,
            ret.header == old(self).header,
            *final(self) == *final(ret),
    {
        self.parameter.or_insert(parameter, value);
        self
    }

    /// The route: the path with the segments put in, and the parameters
    /// behind it as the query.
    pub fn parse_route(&self) -> (r: String)
        ensures
            r@ == route_of(self.path@, self.urlsegment@, self.parameter@),
    {
        route(self.path.as_str(), &self.urlsegment, &self.parameter)
    }

    /// The GET request for the route, without a body.
    pub fn build(&self) -> (r: Request)
        ensures
            r@ == (RequestView {
                method: http::Method::Get,
                route: Some(route_of(self.path@, self.urlsegment@, self.parameter@)),
                body: None,
            }),
    {
        Request { inner: http::Request::new(http::Method::Get, Some(self.parse_route()), None) }
    }
}

/// The route of every POST request.
pub open spec fn post_route() -> Seq<char> {
    "posts"@
}

impl PostBuilder {
    /// A builder with an empty path and no parameters.
    pub fn new() -> (b: PostBuilder)
        ensures
            b.path@ == Seq::<char>::empty(),
            b.parameter@ == Seq::<(Seq<char>, Seq<char>)>::empty(),
            b.header@ == Seq::<(Seq<char>, Seq<char>)>::empty(),
    {
        PostBuilder { path: String::new(), parameter: Fields::new(), header: Fields::new() }
    }

    /// Sets the path, in place of the one given before.
    pub fn path(&mut self, path: &str) -> (ret: &mut PostBuilder)
        ensures
            ret.path@ == path@,
            ret.parameter == old(self).parameter,
            ret.header == old(self).header,
            *final(self) == *final(ret),
    {
        self.path = path.to_owned();
        self
    }

    /// Takes a header field. It is not kept.
    pub fn add_header(&mut self, header: &str, value: &str) -> (ret: &mut PostBuilder)
        ensures
            *ret == *old(self),
            *final(self) == *final(ret),
    {
        self
    }

    /// Gives the member `parameter` of the body its value, unless it has one.
    pub fn add_parameter(&mut self, parameter: &str, value: &str) -> (ret: &mut PostBuilder)
        ensures
            ret.parameter@ == put_absent(old(self).parameter@, parameter@, value@),
            ret.path == old(self).path,
            ret.header == old(self).header,
            *final(self) == *final(ret),
    {
        self.parameter.or_insert(parameter, value);
        self
    }

    /// The body: the parameters as one JSON object.
    pub fn get_body(&self) -> (b: Option<String>)
        ensures
            http::opt_text(b) == Some(json_object(self.parameter@)),
    {
        Some(self.parameter.tojson())
    }

    /// The POST request that carries the parameters as its body. Its route
    /// is the same whatever path was given.
    pub fn build(&self) -> (r: Request)
        ensures
            r@ == (RequestView {
                method: http::Method::Post,
                route: Some(post_route()),
                body: Some(json_object(self.parameter@)),
            }),
    {
        Request {
            inner: http::Request::new(
                http::Method::Post,
                Some("posts".to_owned()),
                self.get_body(),
            ),
        }
    }
}

impl PutBuilder {
    /// A builder with an empty path and no parameters.
    pub fn new() -> (b: PutBuilder)
        ensures
            b.path@ == Seq::<char>::empty(),
            b.parameter@ == Seq::<(Seq<char>, Seq<char>)>::empty(),
            b.header@ == Seq::<(Seq<char>, Seq<char>)>::empty(),
    {
        PutBuilder { path: String::new(), parameter: Fields::new(), header: Fields::new() }
    }

    /// Sets the path, in place of the one given before.
    pub fn path(&mut self, path: &str) -> (ret: &mut PutBuilder)
        ensures
            ret.path@ == path@,
            ret.parameter == old(self).parameter,
            ret.header == old(self).header,
            *final(self) == *final(ret),
    {
        self.path = path.to_owned();
        self
    }

    /// Takes a header field. It is not kept.
    pub fn add_header(&mut self, header: &str, value: &str) -> (ret: &mut PutBuilder)
        ensures
            *ret == *old(self),
            *final(self) == *final(ret),
    {
        self
    }

    /// Gives `parameter` its value, unless it has one.
    pub fn add_parameter(&mut self, parameter: &str, value: &str) -> (ret: &mut PutBuilder)
        ensures
            ret.parameter@ == put_absent(old(self).parameter@, parameter@, value@),
            ret.path == old(self).path,
            ret.header == old(self).header,
            *final(self) == *final(ret),
    {
        self.parameter.or_insert(parameter, value);
        self
    }

    /// The PUT request. It has neither a route nor a body: what the builder
    /// was given does not go into it.
    pub fn build(&self) -> (r: Request)
        ensures
            r@ == (RequestView { method: http::Method::Put, route: None, body: None }),
    {
        Request { inner: http::Request::new(http::Method::Put, None, None) }
    }
}

impl PatchBuilder {
    /// A builder with an empty path, no segments and no parameters.
    pub fn new() -> (b: PatchBuilder)
        ensures
            b.path@ == Seq::<char>::empty(),
            b.urlsegment@ == Seq::<(Seq<char>, Seq<char>)>::empty(),
            b.parameter@ == Seq::<(Seq<char>, Seq<char>)>::empty(),
            b.header@ == Seq::<(Seq<char>, Seq<char>)>::empty(),
    {
        PatchBuilder {
            path: String::new(),
            urlsegment: Fields::new(),
            parameter: Fields::new(),
            header: Fields::new(),
        }
    }

    /// Sets the path, in place of the one given before.
    pub fn path(&mut self, path: &str) -> (ret: &mut PatchBuilder)
        ensures
            ret.path@ == path@,
            ret.urlsegment == old(self).urlsegment,
            ret.parameter == old(self).parameter,
            ret.header == old(self).header,
            *final(self) == *final(ret),
    {
        self.path = path.to_owned();
        self
    }

    /// Takes a header field. It is not kept.
    pub fn add_header(&mut self, header: &str, value: &str) -> (ret: &mut PatchBuilder)
        ensures
            *ret == *old(self),
            *final(self) == *final(ret),
    {
        self
    }

    /// Gives the placeholder `urlsegment` its value, unless it has one.
    pub fn add_urlsegment(&mut self, urlsegment: &str, value: &str) -> (ret: &mut PatchBuilder)
        ensures
            ret.urlsegment@ == put_absent(old(self).urlsegment@, urlsegment@, value@),
            ret.path == old(self).path,
            ret.parameter == old(self).parameter,
            ret.header == old(self).header,
            *final(self) == *final(ret),
    {
        self.urlsegment.or_insert(urlsegment, value);
        self
    }

    /// Gives the query parameter `parameter` its value, unless it has one.
    pub fn add_parameter(&mut self, parameter: &str, value: &str) -> (ret: &mut PatchBuilder)
        ensures
            ret.parameter@ == put_absent(old(self).parameter@, parameter@, value@),
            ret.path == old(self).path,
            ret.urlsegment == old(self).urlsegment,
            ret.header == old(self).header,
            *final(self) == *final(ret),
    {
        self.parameter.or_insert(parameter, value);
        self
    }

    /// The PATCH request for the route, without a body.
    pub fn build(&self) -> (r: Request)
        ensures
            r@ == (RequestView {
                method: http::Method::Patch,
                route: Some(route_of(self.path@, self.urlsegment@, self.parameter@)),
                body: None,
            }),
    {
        Request {
            inner: http::Request::new(
                http::Method::Patch,
                Some(route(self.path.as_str(), &self.urlsegment, &self.parameter)),
                None,
            ),
        }
    }
}

impl DeleteBuilder {
    /// A builder with an empty path and no segments.
    pub fn new() -> (b: DeleteBuilder)
        ensures
            b.path@ == Seq::<char>::empty(),
            b.urlsegment@ == Seq::<(Seq<char>, Seq<char>)>::empty(),
            b.header@ == Seq::<(Seq<char>, Seq<char>)>::empty(),
    {
        DeleteBuilder { path: String::new(), urlsegment: Fields::new(), header: Fields::new() }
    }

    /// Sets the path, in place of the one given before.
    pub fn path(&mut self, path: &str) -> (ret: &mut DeleteBuilder)
        ensures
            ret.path@ == path@,
            ret.urlsegment == old(self).urlsegment,
            ret.header == old(self).header,
            *final(self) == *final(ret),
    {
        self.path = path.to_owned();
        self
    }

    /// Takes a header field. It is not kept.
    pub fn add_header(&mut self, header: &str, value: &str) -> (ret: &mut DeleteBuilder)
        ensures
            *ret == *old(self),
            *final(self) == *final(ret),
    {
        self
    }

    /// Gives the placeholder `urlsegment` its value, unless it has one.
    pub fn add_urlsegment(&mut self, urlsegment: &str, value: &str) -> (ret: &mut DeleteBuilder)
        ensures
            ret.urlsegment@ == put_absent(old(self).urlsegment@, urlsegment@, value@),
            ret.path == old(self).path,
            ret.header == old(self).header,
            *final(self) == *final(ret),
    {
        self.urlsegment.or_insert(urlsegment, value);
        self
    }

    /// The DELETE request for the path with the segments put in, without a
    /// body.
    pub fn build(&self) -> (r: Request)
        ensures
            r@ == (RequestView {
                method: http::Method::Delete,
                route: Some(resolve(self.path@, self.urlsegment@)),
                body: None,
            }),
    {
        Request {
            inner: http::Request::new(
                http::Method::Delete,
                Some(resolved(self.path.as_str(), &self.urlsegment)),
                None,
            ),
        }
    }
}

impl View for Request {
    type V = RequestView;

    closed spec fn view(&self) -> RequestView {
        self.inner@
    }
}

impl Clone for Request {
    fn clone(&self) -> (r: Request)
        ensures
            r@ == self@,
    {
        Request { inner: self.inner.clone() }
    }
}

impl Request {
    /// A builder for a GET request.
    pub fn get() -> (b: GetBuilder)
        ensures
            b.path@ == Seq::<char>::empty(),
            b.urlsegment@ == Seq::<(Seq<char>, Seq<char>)>::empty(),
            b.parameter@ == Seq::<(Seq<char>, Seq<char>)>::empty(),
            b.header@ == Seq::<(Seq<char>, Seq<char>)>::empty(),
    {
        GetBuilder::new()
    }

    /// A builder for a POST request.
    pub fn post() -> (b: PostBuilder)
        ensures
            b.path@ == Seq::<char>::empty(),
            b.parameter@ == Seq::<(Seq<char>, Seq<char>)>::empty(),
            b.header@ == Seq::<(Seq<char>, Seq<char>)>::empty(),
    {
        PostBuilder::new()
    }

    /// A builder for a PUT request.
    pub fn put() -> (b: PutBuilder)
        ensures
            b.path@ == Seq::<char>::empty(),
            b.parameter@ == Seq::<(Seq<char>, Seq<char>)>::empty(),
            b.header@ == Seq::<(Seq<char>, Seq<char>)>::empty(),
    {
        PutBuilder::new()
    }

    /// A builder for a PATCH request.
    pub fn patch() -> (b: PatchBuilder)
        ensures
            b.path@ == Seq::<char>::empty(),
            b.urlsegment@ == Seq::<(Seq<char>, Seq<char>)>::empty(),
            b.parameter@ == Seq::<(Seq<char>, Seq<char>)>::empty(),
            b.header@ == Seq::<(Seq<char>, Seq<char>)>::empty(),
    {
        PatchBuilder::new()
    }

    /// A builder for a DELETE request.
    pub fn delete() -> (b: DeleteBuilder)
        ensures
            b.path@ == Seq::<char>::empty(),
            b.urlsegment@ == Seq::<(Seq<char>, Seq<char>)>::empty(),
            b.header@ == Seq::<(Seq<char>, Seq<char>)>::empty(),
    {
        DeleteBuilder::new()
    }

    /// The method.
    pub fn method(&self) -> (m: Method)
        ensures
            m == Method::of(self@.method),
    {
        let method = self.inner.method();
        Method::from_http(&method)
    }

    /// The data that goes with the request: none.
    pub fn data(&self) -> (s: String)
        ensures
            s@ == Seq::<char>::empty(),
    {
        String::new()
    }

    /// The route below the endpoint's address.
    pub fn route(&self) -> (r: &Option<String>)
        ensures
            http::opt_text(*r) == self@.route,
    {
        self.inner.route()
    }

    /// The body.
    pub fn body(&self) -> (b: &Option<String>)
        ensures
            http::opt_text(*b) == self@.body,
    {
        self.inner.body()
    }

    /// The request as the transport needs it.
    pub fn inner(&self) -> (r: &http::Request)
        ensures
            r@ == self@,
    {
        &self.inner
    }
}

impl Header {
    /// No header fields.
    pub fn new() -> (h: Header)
        ensures
            h.header@ == Seq::<(Seq<char>, Seq<char>)>::empty(),
    {
        Header { header: Fields::new() }
    }

    /// Takes a header field. It is not kept.
    pub fn add(&mut self, header: &str, value: &str) -> (ret: &mut Header)
        ensures
            *ret == *old(self),
            *final(self) == *final(ret),
    {
        self
    }
}

} // verus!
