//! The request a test is about to run.
//!
//! A [`Request`] carries everything the I/O layer needs to perform one HTTP
//! request: the method, the absolute path, the header entries, an optional
//! JSON-shaped body, and a description used in failure messages. The builders
//! compose it; performing the request is I/O and lives outside this library.

use vstd::prelude::*;

use crate::url::IntoUrl;
use crate::value::{has_key, Value};

verus! {

/// The HTTP method of a request.
#[derive(Debug, Clone, Copy, PartialEq, Eq)]
pub enum Method {
    /// GET
    Get,
    /// POST
    Post,
    /// PUT
    Put,
    /// DELETE
    Delete,
}

/// The mathematical image of a header list.
pub open spec fn headers_view(hs: Seq<(String, String)>) -> Seq<(Seq<char>, Seq<char>)> {
    Seq::new(hs.len(), |i: int| (hs[i].0@, hs[i].1@))
}

/// An HTTP request about to be run: method, path, headers, optional body,
/// and the description failure messages carry.
#[derive(Debug)]
pub struct Request {
    body: Option<Value>,
    header: Vec<(String, String)>,
    method: Method,
    url: String,
    context_description: String,
}

impl Request {
    /// The request's method.
    pub closed spec fn spec_method(&self) -> Method {
        self.method
    }

    /// The request's absolute path.
    pub closed spec fn spec_url(&self) -> Seq<char> {
        self.url@
    }

    /// The request's header entries, in insertion order.
    pub closed spec fn spec_header(&self) -> Seq<(Seq<char>, Seq<char>)> {
        headers_view(self.header@)
    }

    /// The request's body, if one was set.
    pub closed spec fn spec_body(&self) -> Option<Value> {
        self.body
    }

    /// The request's description for failure messages.
    pub closed spec fn spec_description(&self) -> Seq<char> {
        self.context_description@
    }

    /// Creates a request with the given method, no headers and no body, whose
    /// description is the method's name, a colon, and the path.
    fn build<U: IntoUrl>(method: Method, method_name: &str, url: U) -> (r: Request)
        ensures
            r.spec_method() == method,
            r.spec_url() == url.spec_url(),
            r.spec_header() == Seq::<(Seq<char>, Seq<char>)>::empty(),
            r.spec_body() is None,
            r.spec_description() == method_name@ + ":"@ + url.spec_url(),
    {
        let url = url.into_url();
        let mut context_description = String::from_str(method_name);
        context_description.append(":");
        context_description.append(url.as_str());
        let r = Request {
            body: None,
            header: Vec::new(),
            method,
            url,
            context_description,
        };
        proof {
            assert(r.spec_header() =~= Seq::<(Seq<char>, Seq<char>)>::empty());
        }
        r
    }

    /// Creates a GET request for the given path.
    pub fn get<U: IntoUrl>(url: U) -> (r: Request)
        ensures
            r.spec_method() == Method::Get,
            r.spec_url() == url.spec_url(),
            r.spec_header() == Seq::<(Seq<char>, Seq<char>)>::empty(),
            r.spec_body() is None,
            r.spec_description() == "GET"@ + ":"@ + url.spec_url(),
    {
        Request::build(Method::Get, "GET", url)
    }

    /// Creates a POST request for the given path.
    pub fn post<U: IntoUrl>(url: U) -> (r: Request)
        ensures
            r.spec_method() == Method::Post,
            r.spec_url() == url.spec_url(),
            r.spec_header() == Seq::<(Seq<char>, Seq<char>)>::empty(),
            r.spec_body() is None,
            r.spec_description() == "POST"@ + ":"@ + url.spec_url(),
    {
        Request::build(Method::Post, "POST", url)
    }

    /// Creates a PUT request for the given path.
    pub fn put<U: IntoUrl>(url: U) -> (r: Request)
        ensures
            r.spec_method() == Method::Put,
            r.spec_url() == url.spec_url(),
            r.spec_header() == Seq::<(Seq<char>, Seq<char>)>::empty(),
            r.spec_body() is None,
            r.spec_description() == "PUT"@ + ":"@ + url.spec_url(),
    {
        Request::build(Method::Put, "PUT", url)
    }

    /// Creates a DELETE request for the given path.
    pub fn delete<U: IntoUrl>(url: U) -> (r: Request)
        ensures
            r.spec_method() == Method::Delete,
            r.spec_url() == url.spec_url(),
            r.spec_header() == Seq::<(Seq<char>, Seq<char>)>::empty(),
            r.spec_body() is None,
            r.spec_description() == "DELETE"@ + ":"@ + url.spec_url(),
    {
        Request::build(Method::Delete, "DELETE", url)
    }

    /// Adds a header key and value to the request. A key may be added only
    /// once.
    pub fn with_header(self, key: String, value: String) -> (r: Request)
        requires
            !has_key(self.spec_header(), key@),
        ensures
            r.spec_header() == self.spec_header().push((key@, value@)),
            r.spec_method() == self.spec_method(),
            r.spec_url() == self.spec_url(),
            r.spec_body() == self.spec_body(),
            r.spec_description() == self.spec_description(),
    {
        let mut this = self;
        let ghost pre = headers_view(this.header@);
        this.header.push((key, value));
        proof {
            assert(headers_view(this.header@) =~= pre.push((key@, value@)));
        }
        this
    }

    /// Sets a body; the previously-set body, if any, is discarded.
    pub fn with_body(self, body: Value) -> (r: Request)
        ensures
            r.spec_body() == Some(body),
            r.spec_method() == self.spec_method(),
            r.spec_url() == self.spec_url(),
            r.spec_header() == self.spec_header(),
            r.spec_description() == self.spec_description(),
    {
        let Request { body: _, header, method, url, context_description } = self;
        Request { body: Some(body), header, method, url, context_description }
    }

    /// Sets the description failure messages carry; the previously-set one is
    /// discarded.
    pub fn with_context(self, context_description: String) -> (r: Request)
        ensures
            r.spec_description() == context_description@,
            r.spec_method() == self.spec_method(),
            r.spec_url() == self.spec_url(),
            r.spec_header() == self.spec_header(),
            r.spec_body() == self.spec_body(),
    {
        let Request { body, header, method, url, context_description: _ } = self;
        Request { body, header, method, url, context_description }
    }

    /// Read accessor for the method, for the I/O layer.
    pub fn method(&self) -> (r: Method)
        ensures
            r == self.spec_method(),
    {
        self.method
    }

    /// Read accessor for the path, for the I/O layer.
    pub fn url(&self) -> (r: &String)
        ensures
            r@ == self.spec_url(),
    {
        &self.url
    }

    /// Read accessor for the headers, for the I/O layer.
    pub fn header(&self) -> (r: &Vec<(String, String)>)
        ensures
            headers_view(r@) == self.spec_header(),
    {
        &self.header
    }

    /// Read accessor for the body, for the I/O layer.
    pub fn body(&self) -> (r: &Option<Value>)
        ensures
            *r == self.spec_body(),
    {
        &self.body
    }

    /// Read accessor for the description, for the I/O layer.
    pub fn context_description(&self) -> (r: &String)
        ensures
            r@ == self.spec_description(),
    {
        &self.context_description
    }
}

} // verus!
