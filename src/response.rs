use vstd::prelude::*;
use vstd::string::*;

verus! {

/// One response header as it is persisted: its name and its raw value.
pub struct HeaderPair {
    pub name: String,
    pub value: Vec<u8>,
}

/// An HTTP response as the idempotency store keeps it.
pub struct SavedResponse {
    pub status_code: u16,
    pub headers: Vec<HeaderPair>,
    pub body: Vec<u8>,
}

/// What a saved response is, byte for byte.
pub ghost struct ResponseView {
    pub status_code: u16,
    pub headers: Seq<(Seq<char>, Seq<u8>)>,
    pub body: Seq<u8>,
}

pub open spec fn header_view(h: HeaderPair) -> (Seq<char>, Seq<u8>) {
    (h.name@, h.value@)
}

impl View for SavedResponse {
    type V = ResponseView;

    open spec fn view(&self) -> ResponseView {
        ResponseView {
            status_code: self.status_code,
            headers: self.headers@.map_values(|h: HeaderPair| header_view(h)),
            body: self.body@,
        }
    }
}

/// The status of a "see other" redirect.
pub const SEE_OTHER: u16 = 303;

pub fn copy_bytes(v: &Vec<u8>) -> (r: Vec<u8>)
    ensures
        r@ == v@,
{
    let mut r: Vec<u8> = Vec::new();
    let mut i: usize = 0;
    while i < v.len()
        invariant
            i <= v@.len(),
            r@ == v@.subrange(0, i as int),
        decreases v@.len() - i,
    {
        r.push(v[i]);
        i = i + 1;
        assert(r@ =~= v@.subrange(0, i as int));
    }
    assert(r@ =~= v@);
    r
}

impl SavedResponse {
    /// A 303 redirect to `location`, with an empty body.
    pub fn see_other(location: &str) -> (r: SavedResponse)
        ensures
            r.status_code == SEE_OTHER,
            r.headers@.len() == 1,
            r.headers@[0].name@ == "location"@,
            r.headers@[0].value@ == location.spec_bytes(),
            r.body@.len() == 0,
    {
        let mut headers: Vec<HeaderPair> = Vec::new();
        let value = location.as_bytes_vec();
        headers.push(HeaderPair { name: String::from_str("location"), value });
        SavedResponse { status_code: SEE_OTHER, headers, body: Vec::new() }
    }

    /// A copy that is the same response, byte for byte.
    pub fn duplicate(&self) -> (r: SavedResponse)
        ensures
            r@ == self@,
    {
        let mut headers: Vec<HeaderPair> = Vec::new();
        let mut i: usize = 0;
        while i < self.headers.len()
            invariant
                i <= self.headers@.len(),
                headers@.len() == i,
                forall|j: int| 0 <= j < i ==> #[trigger] header_view(headers@[j]) == header_view(self.headers@[j]),
            decreases self.headers@.len() - i,
        {
            let h = &self.headers[i];
            headers.push(HeaderPair { name: h.name.clone(), value: copy_bytes(&h.value) });
            i = i + 1;
        }
        let r = SavedResponse { status_code: self.status_code, headers, body: copy_bytes(&self.body) };
        assert(r@.headers =~= self@.headers);
        r
    }
}

} // verus!
