//! HTTP requests and responses, as far as a topic and a webhook look into
//! them.

use std::time::Duration;

use vstd::prelude::*;

use crate::text::{same, same_name};

verus! {

/// What a list of names and values holds.
pub open spec fn pairs(list: Seq<(String, String)>) -> Seq<(Seq<char>, Seq<char>)> {
    list.map_values(|pair: (String, String)| (pair.0@, pair.1@))
}

/// The value of the first header `name`, whichever of its letters are
/// capitals.
pub open spec fn header_in(headers: Seq<(Seq<char>, Seq<char>)>, name: Seq<char>) -> Option<
    Seq<char>,
>
    decreases headers.len(),
{
    if headers.len() == 0 {
        None
    } else if crate::text::folded(headers[0].0) == crate::text::folded(name) {
        Some(headers[0].1)
    } else {
        header_in(headers.drop_first(), name)
    }
}

/// The value of the first parameter `name`.
pub open spec fn parameter_in(query: Seq<(Seq<char>, Seq<char>)>, name: Seq<char>) -> Option<
    Seq<char>,
>
    decreases query.len(),
{
    if query.len() == 0 {
        None
    } else if query[0].0 == name {
        Some(query[0].1)
    } else {
        parameter_in(query.drop_first(), name)
    }
}

/// What a request says.
#[verifier::ext_equal]
pub struct RequestModel {
    pub method: Seq<char>,
    pub path: Seq<char>,
    pub query: Seq<(Seq<char>, Seq<char>)>,
    pub headers: Seq<(Seq<char>, Seq<char>)>,
    pub body: Seq<u8>,
}

/// What a response says.
#[verifier::ext_equal]
pub struct ResponseModel {
    pub status: u16,
    pub headers: Seq<(Seq<char>, Seq<char>)>,
    pub body: Seq<u8>,
}

/// A response of `status` alone.
pub open spec fn bare(status: u16) -> ResponseModel {
    ResponseModel { status, headers: Seq::empty(), body: Seq::empty() }
}

/// A request as it is sent or taken.
#[derive(Debug, PartialEq, Eq)]
pub struct Request {
    pub method: String,
    pub path: String,
    pub query: Vec<(String, String)>,
    pub headers: Vec<(String, String)>,
    pub body: Vec<u8>,
}

impl View for Request {
    type V = RequestModel;

    open spec fn view(&self) -> RequestModel {
        RequestModel {
            method: self.method@,
            path: self.path@,
            query: pairs(self.query@),
            headers: pairs(self.headers@),
            body: self.body@,
        }
    }
}

/// A response as it is given or taken.
#[derive(Debug, PartialEq, Eq)]
pub struct Response {
    pub status: u16,
    pub headers: Vec<(String, String)>,
    pub body: Vec<u8>,
}

impl View for Response {
    type V = ResponseModel;

    open spec fn view(&self) -> ResponseModel {
        ResponseModel {
            status: self.status,
            headers: pairs(self.headers@),
            body: self.body@,
        }
    }
}

/// The value of the first header `name` in `headers`.
fn header_value<'a>(headers: &'a Vec<(String, String)>, name: &str) -> (value: Option<&'a str>)
    ensures
        header_in(pairs(headers@), name@) == match value {
            Some(value) => Some(value@),
            None => None,
        },
{
    let ghost whole = pairs(headers@);
    let mut at: usize = 0;
    assert(whole.skip(0) =~= whole);
    while at < headers.len()
        invariant
            at <= headers@.len(),
            whole == pairs(headers@),
            header_in(whole, name@) == header_in(whole.skip(at as int), name@),
        decreases headers@.len() - at,
    {
        assert(whole.skip(at as int).drop_first() =~= whole.skip(at + 1));
        if same_name(headers[at].0.as_str(), name) {
            return Some(headers[at].1.as_str());
        }
        at += 1;
    }
    None
}

impl Request {
    /// A request for `path`, with nothing else in it.
    #[must_use]
    pub fn new(method: &str, path: &str) -> (request: Self)
        ensures
            request@ == (RequestModel {
                method: method@,
                path: path@,
                query: Seq::empty(),
                headers: Seq::empty(),
                body: Seq::empty(),
            }),
    {
        let request = Self {
            method: method.to_owned(),
            path: path.to_owned(),
            query: Vec::new(),
            headers: Vec::new(),
            body: Vec::new(),
        };
        assert(pairs(request.query@) =~= Seq::empty());
        request
    }

    /// The request with the parameter `name` behind those it has.
    #[must_use]
    pub fn query(self, name: &str, value: &str) -> (request: Self)
        ensures
            request@ == (RequestModel { query: self@.query.push((name@, value@)), ..self@ }),
    {
        let ghost before = self@;
        let mut request = self;
        request.query.push((name.to_owned(), value.to_owned()));
        assert(request@.query =~= before.query.push((name@, value@)));
        request
    }

    /// The request with the header `name` behind those it has.
    #[must_use]
    pub fn header(self, name: &str, value: &str) -> (request: Self)
        ensures
            request@ == (RequestModel { headers: self@.headers.push((name@, value@)), ..self@ }),
    {
        let ghost before = self@;
        let mut request = self;
        request.headers.push((name.to_owned(), value.to_owned()));
        assert(request@.headers =~= before.headers.push((name@, value@)));
        request
    }

    /// The request with `body` as its body.
    #[must_use]
    pub fn body(self, body: &[u8]) -> (request: Self)
        ensures
            request@ == (RequestModel { body: body@, ..self@ }),
    {
        let mut request = self;
        request.body = vstd::slice::slice_to_vec(body);
        request
    }

    /// The value of the first header `name`.
    #[must_use]
    pub fn header_value(&self, name: &str) -> (value: Option<&str>)
        ensures
            header_in(self@.headers, name@) == match value {
                Some(value) => Some(value@),
                None => None,
            },
    {
        header_value(&self.headers, name)
    }

    /// The value of the first parameter `name`.
    #[must_use]
    pub fn query_value(&self, name: &str) -> (value: Option<&str>)
        ensures
            parameter_in(self@.query, name@) == match value {
                Some(value) => Some(value@),
                None => None,
            },
    {
        let ghost whole = pairs(self.query@);
        let mut at: usize = 0;
        assert(whole.skip(0) =~= whole);
        while at < self.query.len()
            invariant
                at <= self.query@.len(),
                whole == pairs(self.query@),
                parameter_in(whole, name@) == parameter_in(whole.skip(at as int), name@),
            decreases self.query@.len() - at,
        {
            assert(whole.skip(at as int).drop_first() =~= whole.skip(at + 1));
            if same(self.query[at].0.as_str(), name) {
                return Some(self.query[at].1.as_str());
            }
            at += 1;
        }
        None
    }
}

impl Response {
    /// A response of `status` alone.
    #[must_use]
    pub fn new(status: u16) -> (response: Self)
        ensures
            response@ == bare(status),
    {
        let response = Self { status, headers: Vec::new(), body: Vec::new() };
        assert(pairs(response.headers@) =~= Seq::empty());
        response
    }

    /// The response with the header `name` behind those it has.
    #[must_use]
    pub fn header(self, name: &str, value: &str) -> (response: Self)
        ensures
            response@ == (ResponseModel { headers: self@.headers.push((name@, value@)), ..self@ }),
    {
        let ghost before = self@;
        let mut response = self;
        response.headers.push((name.to_owned(), value.to_owned()));
        assert(response@.headers =~= before.headers.push((name@, value@)));
        response
    }

    /// The response with `body` as its body.
    #[must_use]
    pub fn body(self, body: &[u8]) -> (response: Self)
        ensures
            response@ == (ResponseModel { body: body@, ..self@ }),
    {
        let mut response = self;
        response.body = vstd::slice::slice_to_vec(body);
        response
    }

    /// The value of the first header `name`.
    #[must_use]
    pub fn header_value(&self, name: &str) -> (value: Option<&str>)
        ensures
            header_in(self@.headers, name@) == match value {
                Some(value) => Some(value@),
                None => None,
            },
    {
        header_value(&self.headers, name)
    }
}

/// What is sent where.
#[verifier::ext_equal]
pub struct OutgoingModel {
    pub endpoint: Seq<char>,
    pub request: RequestModel,
    pub timeout: Option<Duration>,
}

/// A request, the endpoint it goes to, and how long that may be silent.
#[derive(Debug, PartialEq, Eq)]
pub struct Outgoing {
    pub endpoint: String,
    pub request: Request,
    pub timeout: Option<Duration>,
}

impl View for Outgoing {
    type V = OutgoingModel;

    open spec fn view(&self) -> OutgoingModel {
        OutgoingModel {
            endpoint: self.endpoint@,
            request: self.request@,
            timeout: self.timeout,
        }
    }
}

/// A header is found by its name, whichever of its ASCII letters are capitals,
/// and the first of a name is the one that counts.
pub proof fn law_header_is_the_first_of_its_name(
    headers: Seq<(Seq<char>, Seq<char>)>,
    name: Seq<char>,
)
    ensures
        match header_in(headers, name) {
            Some(value) => exists|at: int|
                {
                    &&& 0 <= at < headers.len()
                    &&& crate::text::folded((#[trigger] headers[at]).0) == crate::text::folded(name)
                    &&& headers[at].1 == value
                    &&& forall|before: int|
                        0 <= before < at ==> crate::text::folded((#[trigger] headers[before]).0)
                            != crate::text::folded(name)
                },
            None => forall|at: int|
                0 <= at < headers.len() ==> crate::text::folded((#[trigger] headers[at]).0)
                    != crate::text::folded(name),
        },
    decreases headers.len(),
{
    if headers.len() > 0 {
        let rest = headers.drop_first();
        law_header_is_the_first_of_its_name(rest, name);
        assert(forall|at: int| 0 < at < headers.len() ==> #[trigger] headers[at] == rest[at - 1]);
        if crate::text::folded(headers[0].0) != crate::text::folded(name) {
            if let Some(value) = header_in(rest, name) {
                let at = choose|at: int|
                    {
                        &&& 0 <= at < rest.len()
                        &&& crate::text::folded((#[trigger] rest[at]).0) == crate::text::folded(
                            name,
                        )
                        &&& rest[at].1 == value
                        &&& forall|before: int|
                            0 <= before < at ==> crate::text::folded((#[trigger] rest[before]).0)
                                != crate::text::folded(name)
                    };
                assert(headers[at + 1] == rest[at]);
            }
        } else {
            assert(headers[0].1 == header_in(headers, name)->0);
        }
    }
}

/// A parameter is found by its very name, and the first of a name is the one
/// that counts.
pub proof fn law_parameter_is_the_first_of_its_name(
    query: Seq<(Seq<char>, Seq<char>)>,
    name: Seq<char>,
)
    ensures
        match parameter_in(query, name) {
            Some(value) => exists|at: int|
                {
                    &&& 0 <= at < query.len()
                    &&& #[trigger] query[at] == (name, value)
                    &&& forall|before: int| 0 <= before < at ==> (#[trigger] query[before]).0 != name
                },
            None => forall|at: int| 0 <= at < query.len() ==> (#[trigger] query[at]).0 != name,
        },
    decreases query.len(),
{
    if query.len() > 0 {
        let rest = query.drop_first();
        law_parameter_is_the_first_of_its_name(rest, name);
        assert(forall|at: int| 0 < at < query.len() ==> #[trigger] query[at] == rest[at - 1]);
        if query[0].0 != name {
            if let Some(value) = parameter_in(rest, name) {
                let at = choose|at: int|
                    {
                        &&& 0 <= at < rest.len()
                        &&& #[trigger] rest[at] == (name, value)
                        &&& forall|before: int|
                            0 <= before < at ==> (#[trigger] rest[before]).0 != name
                    };
                assert(query[at + 1] == rest[at]);
            }
        } else {
            assert(query[0] == (name, parameter_in(query, name)->0));
        }
    }
}

/// A request and a response say all that they hold, each thing in its place.
pub proof fn law_a_message_says_what_it_holds(
    request: Request,
    response: Response,
    outgoing: Outgoing,
    status: u16,
)
    ensures
        request@.method == request.method@,
        request@.path == request.path@,
        request@.body == request.body@,
        request@.query.len() == request.query@.len(),
        forall|at: int|
            0 <= at < request.query@.len() ==> #[trigger] request@.query[at] == (
                request.query@[at].0@,
                request.query@[at].1@,
            ),
        request@.headers.len() == request.headers@.len(),
        forall|at: int|
            0 <= at < request.headers@.len() ==> #[trigger] request@.headers[at] == (
                request.headers@[at].0@,
                request.headers@[at].1@,
            ),
        response@.status == response.status,
        response@.body == response.body@,
        response@.headers.len() == response.headers@.len(),
        forall|at: int|
            0 <= at < response.headers@.len() ==> #[trigger] response@.headers[at] == (
                response.headers@[at].0@,
                response.headers@[at].1@,
            ),
        outgoing@.endpoint == outgoing.endpoint@,
        outgoing@.request == outgoing.request@,
        outgoing@.timeout == outgoing.timeout,
        bare(status).status == status,
        bare(status).headers.len() == 0,
        bare(status).body.len() == 0,
{
}

} // verus!
