//! The HTTP messages as the load-balancing core sees them: method, target,
//! header list and body as plain values. Parsing a byte stream into these
//! values and writing them back out is the codec's job, outside this crate;
//! the core only inspects and edits them, above all to append the client's
//! address to the forwarding header before a request goes upstream.

use vstd::prelude::*;

verus! {

/// An HTTP request: method, request target, headers in order, body bytes.
pub struct HttpRequest {
    pub method: String,
    pub uri: String,
    pub headers: Vec<(String, String)>,
    pub body: Vec<u8>,
}

/// An HTTP response: status code, headers in order, body bytes.
pub struct HttpResponse {
    pub status: u16,
    pub headers: Vec<(String, String)>,
    pub body: Vec<u8>,
}

/// The mathematical value of a request.
pub struct ReqView {
    pub method: Seq<char>,
    pub uri: Seq<char>,
    pub headers: Seq<(Seq<char>, Seq<char>)>,
    pub body: Seq<u8>,
}

/// The mathematical value of a response.
pub struct RespView {
    pub status: u16,
    pub headers: Seq<(Seq<char>, Seq<char>)>,
    pub body: Seq<u8>,
}

/// A header list as a sequence of (name, value) character sequences.
pub open spec fn headers_view(s: Seq<(String, String)>) -> Seq<(Seq<char>, Seq<char>)> {
    s.map_values(|p: (String, String)| (p.0@, p.1@))
}

impl View for HttpRequest {
    type V = ReqView;

    open spec fn view(&self) -> ReqView {
        ReqView {
            method: self.method@,
            uri: self.uri@,
            headers: headers_view(self.headers@),
            body: self.body@,
        }
    }
}

impl View for HttpResponse {
    type V = RespView;

    open spec fn view(&self) -> RespView {
        RespView { status: self.status, headers: headers_view(self.headers@), body: self.body@ }
    }
}

/// Position `i` holds the first header named `name`.
pub open spec fn is_first_match(h: Seq<(Seq<char>, Seq<char>)>, name: Seq<char>, i: int) -> bool {
    &&& 0 <= i < h.len()
    &&& h[i].0 == name
    &&& forall|k: int| 0 <= k < i ==> (#[trigger] h[k]).0 != name
}

/// No header is named `name`.
pub open spec fn no_header(h: Seq<(Seq<char>, Seq<char>)>, name: Seq<char>) -> bool {
    forall|k: int| 0 <= k < h.len() ==> (#[trigger] h[k]).0 != name
}

/// A header value after another element is appended to it, preserving any
/// proxy chain already recorded there.
pub open spec fn extended_value(prev: Seq<char>, value: Seq<char>) -> Seq<char> {
    prev + ", "@ + value
}

/// How a header list changes when `value` is appended under `name`: the
/// first header of that name has `value` appended to its value; if there is
/// none, a new header is appended at the end. Nothing else changes.
pub open spec fn headers_extended(
    o: Seq<(Seq<char>, Seq<char>)>,
    n: Seq<(Seq<char>, Seq<char>)>,
    name: Seq<char>,
    value: Seq<char>,
) -> bool {
    &&& (no_header(o, name) ==> n == o.push((name, value)))
    &&& (forall|i: int|
        is_first_match(o, name, i) ==> n == o.update(i, (name, extended_value(o[i].1, value))))
}

/// If some header is named `name`, a first one is.
pub proof fn lemma_first_match_exists(h: Seq<(Seq<char>, Seq<char>)>, name: Seq<char>)
    requires
        !no_header(h, name),
    ensures
        exists|i: int| is_first_match(h, name, i),
    decreases h.len(),
{
    if h[0].0 == name {
        assert(is_first_match(h, name, 0));
    } else {
        let t = h.drop_first();
        assert(forall|k: int| 0 <= k < t.len() ==> #[trigger] t[k] == h[k + 1]);
        assert(!no_header(t, name)) by {
            let k = choose|k: int| 0 <= k < h.len() && (#[trigger] h[k]).0 == name;
            assert(t[k - 1].0 == name);
        }
        lemma_first_match_exists(t, name);
        let i = choose|i: int| is_first_match(t, name, i);
        assert forall|k: int| 0 <= k < i + 1 implies (#[trigger] h[k]).0 != name by {
            if k > 0 {
                assert(t[k - 1] == h[k]);
                assert(t[k - 1].0 != name);
            }
        }
        assert(t[i] == h[i + 1]);
        assert(is_first_match(h, name, i + 1));
    }
}

/// Append `value` to the first header named `name`, creating the header if
/// the request has none. Method, target and body are untouched.
pub fn extend_header_value(req: &mut HttpRequest, name: &String, value: &String)
    ensures
        final(req)@.method == old(req)@.method,
        final(req)@.uri == old(req)@.uri,
        final(req)@.body == old(req)@.body,
        headers_extended(old(req)@.headers, final(req)@.headers, name@, value@),
{
    let n = req.headers.len();
    let mut i: usize = 0;
    while i < n
        invariant
            i <= n,
            n == req.headers@.len(),
            *req == *old(req),
            forall|k: int| 0 <= k < i ==> (#[trigger] req.headers@[k]).0@ != name@,
        decreases n - i,
    {
        let entry = &req.headers[i];
        if entry.0 == *name {
            let combined = entry.1.clone().concat(", ").concat(value.as_str());
            let ghost o = headers_view(req.headers@);
            proof {
                assert(is_first_match(o, name@, i as int));
                assert(forall|j: int, nm: Seq<char>|
                    is_first_match(o, nm, j) && is_first_match(o, nm, i as int) ==> j == i);
            }
            req.headers.set(i, (name.clone(), combined));
            proof {
                assert(headers_view(req.headers@) =~= o.update(
                    i as int,
                    (name@, extended_value(o[i as int].1, value@)),
                ));
            }
            return ;
        }
        i = i + 1;
    }
    let ghost o = headers_view(req.headers@);
    proof {
        assert(no_header(o, name@));
    }
    req.headers.push((name.clone(), value.clone()));
    proof {
        assert(headers_view(req.headers@) =~= o.push((name@, value@)));
        assert(forall|j: int| !is_first_match(o, name@, j));
    }
}

/// The active health check probe: a GET for the configured probe path with a
/// Host header naming the upstream and an empty body.
pub fn make_probe_request(path: &String, host: &String) -> (r: HttpRequest)
    ensures
        r@.method == "GET"@,
        r@.uri == path@,
        r@.headers == seq![("Host"@, host@)],
        r@.body == Seq::<u8>::empty(),
{
    let mut headers: Vec<(String, String)> = Vec::new();
    headers.push(("Host".to_owned(), host.clone()));
    let r = HttpRequest {
        method: "GET".to_owned(),
        uri: path.clone(),
        headers,
        body: Vec::new(),
    };
    proof {
        assert(r@.headers =~= seq![("Host"@, host@)]);
        assert(r@.body =~= Seq::<u8>::empty());
    }
    r
}

} // verus!
