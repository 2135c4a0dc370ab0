//! The snapshot of an HTTP response the idempotency layer persists and
//! replays: status code, header set and body bytes.

use vstd::prelude::*;
use vstd::string::StringExecFns;

verus! {

/// One response header.
#[derive(Debug, PartialEq, Eq)]
pub struct Header {
    pub name: String,
    pub value: String,
}

#[verifier::ext_equal]
pub ghost struct HeaderView {
    pub name: Seq<char>,
    pub value: Seq<char>,
}

impl View for Header {
    type V = HeaderView;

    open spec fn view(&self) -> HeaderView {
        HeaderView { name: self.name@, value: self.value@ }
    }
}

/// A stored HTTP response: everything needed to replay it byte for byte.
#[derive(Debug, PartialEq, Eq)]
pub struct HttpResponseSnapshot {
    pub status: u16,
    pub headers: Vec<Header>,
    pub body: Vec<u8>,
}

#[verifier::ext_equal]
pub ghost struct HttpResponseView {
    pub status: u16,
    pub headers: Seq<HeaderView>,
    pub body: Seq<u8>,
}

impl View for HttpResponseSnapshot {
    type V = HttpResponseView;

    open spec fn view(&self) -> HttpResponseView {
        HttpResponseView {
            status: self.status,
            headers: self.headers@.map_values(|h: Header| h@),
            body: self.body@,
        }
    }
}

/// The response redirecting to `location`.
pub open spec fn spec_see_other(location: Seq<char>) -> HttpResponseView {
    HttpResponseView {
        status: 303,
        headers: seq![(HeaderView { name: "Location"@, value: location })],
        body: Seq::<u8>::empty(),
    }
}

/// Forward to another location: a `303 See Other` answer with only a
/// `Location` header and an empty body.
pub fn see_other(location: &str) -> (r: HttpResponseSnapshot)
    ensures
        r@ == spec_see_other(location@),
{
    let mut headers: Vec<Header> = Vec::new();
    headers.push(Header { name: String::from_str("Location"), value: String::from_str(location) });
    let r = HttpResponseSnapshot { status: 303, headers, body: Vec::new() };
    proof {
        assert(r@.headers =~= spec_see_other(location@).headers);
        assert(r@.body =~= spec_see_other(location@).body);
    }
    r
}

impl HttpResponseSnapshot {
    /// A field-for-field copy of the snapshot.
    pub fn duplicate(&self) -> (r: Self)
        ensures
            r@ == self@,
    {
        let mut headers: Vec<Header> = Vec::new();
        let mut i: usize = 0;
        while i < self.headers.len()
            invariant
                i <= self.headers.len(),
                headers@ =~= self.headers@.subrange(0, i as int),
            decreases self.headers.len() - i,
        {
            let h = &self.headers[i];
            headers.push(Header { name: h.name.clone(), value: h.value.clone() });
            i += 1;
        }
        let mut body: Vec<u8> = Vec::new();
        let mut j: usize = 0;
        while j < self.body.len()
            invariant
                j <= self.body.len(),
                body@ =~= self.body@.subrange(0, j as int),
            decreases self.body.len() - j,
        {
            body.push(self.body[j]);
            j += 1;
        }
        let r = HttpResponseSnapshot { status: self.status, headers, body };
        proof {
            assert(r.headers@ =~= self.headers@);
            assert(r.body@ =~= self.body@);
        }
        r
    }
}

} // verus!
