//! Plain representations of upstream HTTP traffic: the request descriptor
//! that canonically identifies an upstream call (the deduplication key) and
//! the response handed back by the transport.

use vstd::prelude::*;

use crate::value::Value;

verus! {

/// An HTTP request method.
#[derive(Clone, Copy, Debug, PartialEq, Eq, Structural)]
pub enum Method {
    Connect,
    Delete,
    Get,
    Head,
    Options,
    Patch,
    Post,
    Put,
    Trace,
}

impl Method {
    /// The method's wire name.
    pub open spec fn spec_name(&self) -> Seq<char> {
        match self {
            Method::Connect => "CONNECT"@,
            Method::Delete => "DELETE"@,
            Method::Get => "GET"@,
            Method::Head => "HEAD"@,
            Method::Options => "OPTIONS"@,
            Method::Patch => "PATCH"@,
            Method::Post => "POST"@,
            Method::Put => "PUT"@,
            Method::Trace => "TRACE"@,
        }
    }

    /// The method's wire name.
    pub fn name(&self) -> (r: &'static str)
        ensures
            r@ == self.spec_name(),
    {
        match self {
            Method::Connect => "CONNECT",
            Method::Delete => "DELETE",
            Method::Get => "GET",
            Method::Head => "HEAD",
            Method::Options => "OPTIONS",
            Method::Patch => "PATCH",
            Method::Post => "POST",
            Method::Put => "PUT",
            Method::Trace => "TRACE",
        }
    }

    /// The method's position when methods are ordered by their wire
    /// names' alphabetical order.
    pub open spec fn spec_rank(&self) -> int {
        match self {
            Method::Connect => 0,
            Method::Delete => 1,
            Method::Get => 2,
            Method::Head => 3,
            Method::Options => 4,
            Method::Patch => 5,
            Method::Post => 6,
            Method::Put => 7,
            Method::Trace => 8,
        }
    }

    /// The method's alphabetical rank.
    pub fn rank(&self) -> (r: u8)
        ensures
            r == self.spec_rank(),
    {
        match self {
            Method::Connect => 0,
            Method::Delete => 1,
            Method::Get => 2,
            Method::Head => 3,
            Method::Options => 4,
            Method::Patch => 5,
            Method::Post => 6,
            Method::Put => 7,
            Method::Trace => 8,
        }
    }
}

/// The canonical identification of an upstream call: method, URL, headers
/// and body. Two calls within one request whose descriptors are equal are
/// coalesced into one outbound call.
#[derive(Debug)]
pub struct RequestDescriptor {
    pub method: Method,
    pub url: String,
    pub headers: Vec<(String, String)>,
    pub body: Option<String>,
}

/// The mathematical view of a list of string pairs — header lists and
/// environment entries alike: the sequence of name/value character
/// sequences, in order.
pub open spec fn string_pairs_view(pairs: Seq<(String, String)>) -> Seq<(Seq<char>, Seq<char>)> {
    pairs.map_values(|p: (String, String)| (p.0@, p.1@))
}

/// The mathematical key of a descriptor. Two descriptors denote the same
/// upstream call exactly when their keys are equal.
#[verifier::ext_equal]
pub struct DescriptorKey {
    pub method: Method,
    pub url: Seq<char>,
    pub headers: Seq<(Seq<char>, Seq<char>)>,
    pub body: Option<Seq<char>>,
}

impl RequestDescriptor {
    /// The deduplication key of this descriptor.
    pub open spec fn key(&self) -> DescriptorKey {
        DescriptorKey {
            method: self.method,
            url: self.url@,
            headers: string_pairs_view(self.headers@),
            body: match self.body {
                Some(ref b) => Some(b@),
                None => None,
            },
        }
    }
}

/// An upstream response: status, headers, and the body already decoded
/// into a GraphQL-compatible value by the transport layer.
#[derive(Debug)]
pub struct Response {
    pub status: u16,
    pub headers: Vec<(String, String)>,
    pub body: Value,
}

fn string_pair_eq(a: &(String, String), b: &(String, String)) -> (r: bool)
    ensures
        r <==> (a.0@ == b.0@ && a.1@ == b.1@),
{
    a.0 == b.0 && a.1 == b.1
}

fn headers_eq(a: &Vec<(String, String)>, b: &Vec<(String, String)>) -> (r: bool)
    ensures
        r <==> string_pairs_view(a@) == string_pairs_view(b@),
{
    if a.len() != b.len() {
        proof {
            assert(string_pairs_view(a@).len() == a@.len());
            assert(string_pairs_view(b@).len() == b@.len());
        }
        return false;
    }
    let n = a.len();
    let mut i: usize = 0;
    while i < n
        invariant
            n == a.len() == b.len(),
            i <= n,
            forall|k: int|
                0 <= k < i ==> ((#[trigger] a@[k]).0@ == b@[k].0@ && a@[k].1@ == b@[k].1@),
        decreases n - i,
    {
        if !string_pair_eq(&a[i], &b[i]) {
            proof {
                assert(string_pairs_view(a@)[i as int] != string_pairs_view(b@)[i as int]);
            }
            return false;
        }
        i += 1;
    }
    proof {
        assert forall|k: int| 0 <= k < a@.len() implies string_pairs_view(a@)[k] == string_pairs_view(
            b@,
        )[k] by {
            assert(a@[k].0@ == b@[k].0@);
            assert(a@[k].1@ == b@[k].1@);
            assert(string_pairs_view(a@)[k] == (a@[k].0@, a@[k].1@));
            assert(string_pairs_view(b@)[k] == (b@[k].0@, b@[k].1@));
        }
        assert(string_pairs_view(a@) =~= string_pairs_view(b@));
    }
    true
}

/// Whether two descriptors identify the same upstream call, that is,
/// whether their keys are equal.
pub fn descriptor_eq(a: &RequestDescriptor, b: &RequestDescriptor) -> (r: bool)
    ensures
        r <==> a.key() == b.key(),
{
    let methods_equal = a.method == b.method;
    let urls_equal = a.url.eq(&b.url);
    let bodies_equal = match (&a.body, &b.body) {
        (None, None) => true,
        (Some(x), Some(y)) => x.eq(y),
        _ => false,
    };
    let hdrs_equal = headers_eq(&a.headers, &b.headers);
    let r = methods_equal && urls_equal && bodies_equal && hdrs_equal;
    proof {
        if r {
            assert(a.key() =~= b.key());
        }
        if a.key() == b.key() {
            assert(a.key().method == b.key().method);
            assert(a.key().url == b.key().url);
            assert(a.key().body == b.key().body);
            assert(a.key().headers == b.key().headers);
        }
    }
    r
}

/// Cloning a list of string pairs keeps its view.
pub fn clone_string_pairs(pairs: &Vec<(String, String)>) -> (r: Vec<(String, String)>)
    ensures
        string_pairs_view(r@) == string_pairs_view(pairs@),
{
    let mut out: Vec<(String, String)> = Vec::new();
    let n = pairs.len();
    let mut i: usize = 0;
    while i < n
        invariant
            n == pairs.len(),
            i <= n,
            out@.len() == i,
            forall|k: int|
                0 <= k < i ==> ((#[trigger] out@[k]).0@ == pairs@[k].0@ && out@[k].1@
                    == pairs@[k].1@),
        decreases n - i,
    {
        let pair = (pairs[i].0.clone(), pairs[i].1.clone());
        out.push(pair);
        i += 1;
    }
    proof {
        assert forall|k: int| 0 <= k < out@.len() implies string_pairs_view(out@)[k]
            == string_pairs_view(pairs@)[k] by {
            assert(out@[k].0@ == pairs@[k].0@);
            assert(out@[k].1@ == pairs@[k].1@);
            assert(string_pairs_view(out@)[k] == (out@[k].0@, out@[k].1@));
            assert(string_pairs_view(pairs@)[k] == (pairs@[k].0@, pairs@[k].1@));
        }
        assert(string_pairs_view(out@) =~= string_pairs_view(pairs@));
    }
    out
}

/// Cloning a descriptor keeps its key.
pub fn clone_descriptor(d: &RequestDescriptor) -> (r: RequestDescriptor)
    ensures
        r.key() == d.key(),
{
    let headers = clone_string_pairs(&d.headers);
    let r = RequestDescriptor {
        method: d.method,
        url: d.url.clone(),
        headers,
        body: match &d.body {
            Some(b) => Some(b.clone()),
            None => None,
        },
    };
    proof {
        assert(r.key() =~= d.key());
    }
    r
}

} // verus!
