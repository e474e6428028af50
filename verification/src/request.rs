//! The description of one outgoing request, and the canonical form of its
//! headers and body.
use vstd::prelude::*;
use vstd::slice::slice_to_vec;
use crate::crypto::base64_sha256_of;
use crate::text::{join_tab, lowered, trimmed};

verus! {

/// What is signed of one request. `headers` are rendered in the order in
/// which they stand here. `unsigned_header` and `signed_header` are filled in
/// by signing.
#[derive(Debug, Clone)]
pub struct RequestData {
    pub request_uri: String,
    pub headers: Vec<(String, String)>,
    pub body: Vec<u8>,
    pub max_body: usize,
    pub unsigned_header: String,
    pub signed_header: String,
}

/// What a [`RequestData`] holds, as plain texts and bytes.
pub struct RequestModel {
    pub request_uri: Seq<char>,
    pub headers: Seq<(Seq<char>, Seq<char>)>,
    pub body: Seq<u8>,
    pub max_body: usize,
    pub unsigned_header: Seq<char>,
    pub signed_header: Seq<char>,
}

impl View for RequestData {
    type V = RequestModel;

    open spec fn view(&self) -> RequestModel {
        RequestModel {
            request_uri: self.request_uri@,
            headers: header_texts(self.headers@),
            body: self.body@,
            max_body: self.max_body,
            unsigned_header: self.unsigned_header@,
            signed_header: self.signed_header@,
        }
    }
}

/// A URI that can be signed: not empty, and beginning with `/`.
pub open spec fn uri_is_absolute(uri: Seq<char>) -> bool {
    uri.len() > 0 && uri[0] == '/'
}

/// The headers as pairs of texts.
pub open spec fn header_texts(headers: Seq<(String, String)>) -> Seq<(Seq<char>, Seq<char>)> {
    Seq::new(headers.len(), |i: int| (headers[i].0@, headers[i].1@))
}

/// One header in canonical form: the lowercased name, a colon, the trimmed
/// value.
pub open spec fn header_line(name: Seq<char>, value: Seq<char>) -> Seq<char> {
    lowered(name) + seq![':'] + trimmed(value)
}

/// The canonical form of each header, in the headers' order.
pub open spec fn header_lines(headers: Seq<(Seq<char>, Seq<char>)>) -> Seq<Seq<char>> {
    Seq::new(headers.len(), |i: int| header_line(headers[i].0, headers[i].1))
}

/// The canonical form of the headers: their lines, joined by tabs.
pub open spec fn normalized_headers(headers: Seq<(Seq<char>, Seq<char>)>) -> Seq<char> {
    join_tab(header_lines(headers))
}

/// The headers with each name lowercased and each value trimmed.
pub open spec fn normalized_entries(headers: Seq<(Seq<char>, Seq<char>)>) -> Seq<
    (Seq<char>, Seq<char>),
> {
    Seq::new(headers.len(), |i: int| (lowered(headers[i].0), trimmed(headers[i].1)))
}

/// Whether the body takes part in the signature: only for a `POST` with a
/// body and a positive limit.
pub open spec fn body_is_hashed(body: Seq<u8>, max: usize, method: Seq<char>) -> bool {
    method == "POST"@ && body.len() > 0 && max > 0
}

/// The first `max` bytes of the body, or all of it where it is no longer.
pub open spec fn truncated_body(body: Seq<u8>, max: usize) -> Seq<u8> {
    if body.len() > max {
        body.take(max as int)
    } else {
        body
    }
}

/// The body's field of the canonical text: the encoded digest of the
/// truncated body where the body is hashed, and nothing otherwise.
pub open spec fn body_hash_of(body: Seq<u8>, max: usize, method: Seq<char>) -> Seq<char> {
    if body_is_hashed(body, max, method) {
        base64_sha256_of(truncated_body(body, max))
    } else {
        Seq::empty()
    }
}

/// The bytes that the digest covers: the truncated body where the body is
/// hashed, and none otherwise.
pub open spec fn hashed_bytes(body: Seq<u8>, max: usize, method: Seq<char>) -> Seq<u8> {
    if body_is_hashed(body, max, method) {
        truncated_body(body, max)
    } else {
        Seq::empty()
    }
}

/// The body that a signed request carries: the truncated body where the body
/// is hashed, and the body as it was otherwise.
pub open spec fn body_to_transmit(body: Seq<u8>, max: usize, method: Seq<char>) -> Seq<u8> {
    if body_is_hashed(body, max, method) {
        truncated_body(body, max)
    } else {
        body
    }
}

/// Whether no two headers have the same name, capitals and small letters
/// taken as one. Signing does not rely on it: every entry is signed, in its
/// place, also where a name stands twice.
pub open spec fn header_names_distinct(headers: Seq<(Seq<char>, Seq<char>)>) -> bool {
    forall|i: int, j: int|
        0 <= i < j < headers.len() ==> lowered(#[trigger] headers[i].0) != lowered(
            #[trigger] headers[j].0,
        )
}

impl RequestModel {
    /// A request for `uri` with no headers, no body and no limit on the body.
    pub open spec fn bare(uri: Seq<char>) -> RequestModel {
        RequestModel {
            request_uri: uri,
            headers: Seq::empty(),
            body: Seq::empty(),
            max_body: 0,
            unsigned_header: Seq::empty(),
            signed_header: Seq::empty(),
        }
    }

    /// Whether the request can be signed: its URI is not empty and begins
    /// with `/`.
    pub open spec fn can_be_signed(self) -> bool {
        uri_is_absolute(self.request_uri)
    }

    /// The body's field of the canonical text when the request is sent with
    /// `method`.
    pub open spec fn body_hash(self, method: Seq<char>) -> Seq<char> {
        body_hash_of(self.body, self.max_body, method)
    }

    /// The body that goes out with the request when it is sent with `method`.
    pub open spec fn body_to_transmit(self, method: Seq<char>) -> Seq<u8> {
        body_to_transmit(self.body, self.max_body, method)
    }
}

impl RequestData {
    /// A request for `uri` with no headers, no body and no limit on the body.
    pub fn new(uri: &str) -> (res: RequestData)
        ensures
            res@ == RequestModel::bare(uri@),
    {
        let request = RequestData {
            request_uri: uri.to_owned(),
            headers: Vec::new(),
            body: Vec::new(),
            max_body: 0,
            unsigned_header: String::new(),
            signed_header: String::new(),
        };
        assert(request@.headers =~= Seq::empty());
        assert(request@.body =~= Seq::empty());
        request
    }

    /// The same request with `headers` in place of its headers. They are
    /// signed in the order in which they stand in `headers`, each of them,
    /// also where a name stands twice: see
    /// [`RequestData::has_distinct_header_names`].
    pub fn with_headers(self, headers: Vec<(String, String)>) -> (res: RequestData)
        ensures
            res@ == (RequestModel { headers: header_texts(headers@), ..self@ }),
    {
        let mut request = self;
        request.headers = headers;
        request
    }

    /// The same request with a copy of `body` in place of its body.
    pub fn with_body(self, body: &[u8]) -> (res: RequestData)
        ensures
            res@ == (RequestModel { body: body@, ..self@ }),
    {
        let mut request = self;
        request.body = slice_to_vec(body);
        request
    }

    /// Whether no two headers have the same name, capitals and small letters
    /// taken as one.
    pub fn has_distinct_header_names(&self) -> (res: bool)
        ensures
            res == header_names_distinct(self@.headers),
    {
        let n = self.headers.len();
        let mut j: usize = 0;
        while j < n
            invariant
                n == self.headers@.len(),
                j <= n,
                header_names_distinct(self@.headers.take(j as int)),
            decreases n - j,
        {
            let name = self.headers[j].0.as_str().to_ascii_lowercase();
            let mut i: usize = 0;
            while i < j
                invariant
                    n == self.headers@.len(),
                    i <= j < n,
                    name@ == lowered(self@.headers[j as int].0),
                    forall|a: int| 0 <= a < i ==> lowered(#[trigger] self@.headers[a].0) != name@,
                decreases j - i,
            {
                let other = self.headers[i].0.as_str().to_ascii_lowercase();
                if other == name {
                    assert(lowered(self@.headers[i as int].0) == lowered(
                        self@.headers[j as int].0,
                    ));
                    return false;
                }
                i += 1;
            }
            proof {
                let upto = self@.headers.take(j as int + 1);
                assert forall|a: int, b: int| 0 <= a < b < upto.len() implies lowered(
                    #[trigger] upto[a].0,
                ) != lowered(#[trigger] upto[b].0) by {
                    if b < j {
                        assert(self@.headers.take(j as int)[a] == upto[a]);
                        assert(self@.headers.take(j as int)[b] == upto[b]);
                    }
                }
            }
            j += 1;
        }
        assert(self@.headers.take(n as int) =~= self@.headers);
        true
    }

    /// The same request with `max` as the limit on its body.
    pub fn with_max_body(self, max: usize) -> (res: RequestData)
        ensures
            res@ == (RequestModel { max_body: max, ..self@ }),
    {
        let mut request = self;
        request.max_body = max;
        request
    }
}

/// Normalizing headers that are normalized already gives the same text as
/// normalizing the headers they came from.
pub proof fn lemma_normalization_idempotent(headers: Seq<(Seq<char>, Seq<char>)>)
    ensures
        normalized_headers(normalized_entries(headers)) == normalized_headers(headers),
{
    let again = header_lines(normalized_entries(headers));
    let once = header_lines(headers);
    assert forall|i: int| 0 <= i < headers.len() implies again[i] == once[i] by {
        crate::text::lemma_lower_idempotent(headers[i].0);
        crate::text::lemma_trim_idempotent(headers[i].1);
    }
    assert(again =~= once);
}

/// A body longer than a positive limit is cut to exactly the limit for a
/// `POST`: those bytes are what is sent, and their digest is what is signed.
pub proof fn lemma_truncation_exact(body: Seq<u8>, max: usize)
    requires
        max > 0,
        body.len() > max,
    ensures
        body_to_transmit(body, max, "POST"@) == body.take(max as int),
        body_to_transmit(body, max, "POST"@).len() == max,
        body_hash_of(body, max, "POST"@) == base64_sha256_of(body.take(max as int)),
{
}

/// A body that is not hashed is not touched: with a limit of 0, with no
/// body, and with any method but `POST`, the body's field of the canonical
/// text is empty and the body to transmit is the body as it was.
pub proof fn lemma_unhashed_body_is_kept(body: Seq<u8>, max: usize, method: Seq<char>)
    requires
        max == 0 || body.len() == 0 || method != "POST"@,
    ensures
        body_hash_of(body, max, method) == Seq::<char>::empty(),
        body_to_transmit(body, max, method) == body,
{
}

/// Only a `POST` has its body hashed: for a `GET`, and for any other method,
/// the body's field of the canonical text is empty and the body stays as it
/// was, whatever the body and the limit are.
pub proof fn lemma_only_post_hashes_body(body: Seq<u8>, max: usize, method: Seq<char>)
    ensures
        "GET"@ != "POST"@,
        method != "POST"@ ==> {
            &&& !body_is_hashed(body, max, method)
            &&& body_hash_of(body, max, method) == Seq::<char>::empty()
            &&& body_to_transmit(body, max, method) == body
        },
{
    reveal_strlit("GET");
    reveal_strlit("POST");
    assert("GET"@.len() == 3 && "POST"@.len() == 4);
}

impl Default for RequestData {
    /// A request with nothing in it: not even a URI.
    fn default() -> (res: RequestData)
        ensures
            res@ == RequestModel::bare(Seq::empty()),
    {
        let request = RequestData {
            request_uri: String::new(),
            headers: Vec::new(),
            body: Vec::new(),
            max_body: 0,
            unsigned_header: String::new(),
            signed_header: String::new(),
        };
        assert(request@.headers =~= Seq::empty());
        assert(request@.body =~= Seq::empty());
        request
    }
}

} // verus!
