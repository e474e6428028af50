//! The credentials of an API client and the signing of requests with them.
use vstd::prelude::*;
use vstd::slice::{slice_subrange, slice_to_vec};
use vstd::string::*;
use vstd::utf8::encode_utf8;
use crate::ambient::{fresh_nonce, is_nonce, is_timestamp, utc_now_formatted};
use crate::crypto::{
    base64_hmac_of,
    base64_hmac_sha256,
    base64_sha256,
    SignError,
    MAX_KEY_BYTES,
};
use crate::request::{
    body_hash_of,
    body_is_hashed,
    hashed_bytes,
    header_line,
    header_lines,
    header_texts,
    lemma_only_post_hashes_body,
    normalized_headers,
    uri_is_absolute,
    RequestData,
    RequestModel,
};
use crate::text::{join_tab, same_text};

verus! {

/// The credentials of one API client. Signing reads them and changes nothing.
#[derive(Debug, Clone)]
pub struct Authenticator {
    pub host: String,
    pub client_token: String,
    pub client_secret: String,
    pub access_token: String,
}

/// The header before its signature: the scheme's name, then the client
/// token, the access token, the timestamp and the nonce, each field closed by
/// a semicolon.
pub open spec fn unsigned_header_of(
    client_token: Seq<char>,
    access_token: Seq<char>,
    timestamp: Seq<char>,
    nonce: Seq<char>,
) -> Seq<char> {
    "EG1-HMAC-SHA256 client_token="@ + client_token + ";access_token="@ + access_token
        + ";timestamp="@ + timestamp + ";nonce="@ + nonce + ";"@
}

/// The canonical text that is signed: seven fields with a tab between each
/// two neighbours.
pub open spec fn data_to_sign_of(
    method: Seq<char>,
    host: Seq<char>,
    uri: Seq<char>,
    headers: Seq<char>,
    body_hash: Seq<char>,
    unsigned_header: Seq<char>,
) -> Seq<char> {
    method + seq!['\t'] + "https"@ + seq!['\t'] + host + seq!['\t'] + uri + seq!['\t'] + headers
        + seq!['\t'] + body_hash + seq!['\t'] + unsigned_header
}

/// The key of one signature: the encoded HMAC of the timestamp under the
/// client secret.
pub open spec fn signing_key_of(client_secret: Seq<char>, timestamp: Seq<char>) -> Seq<char> {
    base64_hmac_of(timestamp, client_secret)
}

/// The header with its signature appended.
pub open spec fn with_signature(unsigned_header: Seq<char>, signature: Seq<char>) -> Seq<char> {
    unsigned_header + "signature="@ + signature
}

/// What an [`Authenticator`] holds, as plain texts.
pub struct Credentials {
    pub host: Seq<char>,
    pub client_token: Seq<char>,
    pub client_secret: Seq<char>,
    pub access_token: Seq<char>,
}

impl View for Authenticator {
    type V = Credentials;

    open spec fn view(&self) -> Credentials {
        Credentials {
            host: self.host@,
            client_token: self.client_token@,
            client_secret: self.client_secret@,
            access_token: self.access_token@,
        }
    }
}

impl Credentials {
    /// The header before its signature, for `timestamp` and `nonce`.
    pub open spec fn unsigned_header(self, timestamp: Seq<char>, nonce: Seq<char>) -> Seq<char> {
        unsigned_header_of(self.client_token, self.access_token, timestamp, nonce)
    }

    /// The canonical text of `request` as it stands, sent with `method`.
    pub open spec fn data_to_sign(self, request: RequestModel, method: Seq<char>) -> Seq<char> {
        data_to_sign_of(
            method,
            self.host,
            request.request_uri,
            normalized_headers(request.headers),
            request.body_hash(method),
            request.unsigned_header,
        )
    }

    /// The signature of `request` as it stands, sent with `method` at
    /// `timestamp`.
    pub open spec fn signature(
        self,
        request: RequestModel,
        method: Seq<char>,
        timestamp: Seq<char>,
    ) -> Seq<char> {
        base64_hmac_of(
            self.data_to_sign(request, method),
            signing_key_of(self.client_secret, timestamp),
        )
    }

    /// The `Authorization` header for `request`, sent with `method` at
    /// `timestamp` under `nonce`: the unsigned header, followed by the
    /// signature of the request that carries it.
    pub open spec fn signed_header(
        self,
        request: RequestModel,
        method: Seq<char>,
        timestamp: Seq<char>,
        nonce: Seq<char>,
    ) -> Seq<char> {
        let unsigned = self.unsigned_header(timestamp, nonce);
        let carrying = RequestModel { unsigned_header: unsigned, ..request };
        with_signature(unsigned, self.signature(carrying, method, timestamp))
    }

    /// Whether the client secret is longer, in bytes, than a key may be.
    pub open spec fn secret_too_long(self) -> bool {
        encode_utf8(self.client_secret).len() > MAX_KEY_BYTES
    }
}

impl Authenticator {
    /// The credentials for the API at `h`: client token `ct`, client secret
    /// `cs` and access token `at`, each kept as given.
    pub fn new(h: &str, ct: &str, cs: &str, at: &str) -> (res: Authenticator)
        ensures
            res@ == (Credentials {
                host: h@,
                client_token: ct@,
                client_secret: cs@,
                access_token: at@,
            }),
    {
        Authenticator {
            host: h.to_owned(),
            client_token: ct.to_owned(),
            client_secret: cs.to_owned(),
            access_token: at.to_owned(),
        }
    }

    /// Renders the headers in canonical form: each as its lowercased name, a
    /// colon and its trimmed value, in the order given, with tabs between.
    pub fn normalize_headers(headers: &Vec<(String, String)>) -> (res: String)
        ensures
            res@ == normalized_headers(header_texts(headers@)),
    {
        let ghost lines = header_lines(header_texts(headers@));
        let mut out = String::new();
        let mut i: usize = 0;
        assert(lines.take(0) =~= Seq::<Seq<char>>::empty());
        while i < headers.len()
            invariant
                i <= headers.len(),
                lines == header_lines(header_texts(headers@)),
                out@ == join_tab(lines.take(i as int)),
            decreases headers.len() - i,
        {
            let name = headers[i].0.as_str().to_ascii_lowercase();
            let value = headers[i].1.as_str().trim();
            let ghost before = out@;
            if i > 0 {
                out.append("\t");
            }
            out.append(name.as_str());
            out.append(":");
            out.append(value);
            proof {
                reveal_strlit("\t");
                reveal_strlit(":");
                let upto = lines.take(i as int + 1);
                assert(upto.drop_last() =~= lines.take(i as int));
                assert(upto.last() == lines[i as int]);
                assert(lines[i as int] == header_line(headers@[i as int].0@, headers@[i as int].1@));
                assert("\t"@ =~= seq!['\t']);
                assert(":"@ =~= seq![':']);
                if i > 0 {
                    assert(out@ =~= before + seq!['\t'] + lines[i as int]);
                } else {
                    assert(before =~= Seq::<char>::empty());
                    assert(out@ =~= lines[i as int]);
                }
            }
            i += 1;
        }
        assert(lines.take(i as int) =~= lines);
        out
    }

    /// Whether the body takes part in the signature: only for a `POST` with
    /// a body and a positive limit `max`.
    pub fn body_is_signed(body: &[u8], max: usize, method: &str) -> (res: bool)
        ensures
            res == body_is_hashed(body@, max, method@),
    {
        same_text(method, "POST") && body.len() > 0 && max > 0
    }

    /// Decides what of the body is signed. For a `POST` with a body and a
    /// positive limit `max`: the body cut to its first `max` bytes, and the
    /// encoded digest of exactly those bytes. Otherwise no digest and no
    /// bytes.
    pub fn process_body(body: &[u8], max: usize, method: &str) -> (res: (String, Vec<u8>))
        ensures
            res.0@ == body_hash_of(body@, max, method@),
            res.1@ == hashed_bytes(body@, max, method@),
    {
        if Self::body_is_signed(body, max, method) {
            let kept = if body.len() > max {
                slice_subrange(body, 0, max)
            } else {
                body
            };
            let hash = base64_sha256(kept);
            (hash, slice_to_vec(kept))
        } else {
            (String::new(), Vec::new())
        }
    }

    /// Derives the key for signatures made at `timestamp`.
    pub fn make_signing_key(&self, timestamp: &str) -> (res: Result<String, SignError>)
        ensures
            res matches Ok(key) ==> key@ == signing_key_of(self@.client_secret, timestamp@),
            res matches Err(e) ==> e == SignError::InternalCryptoFailure,
            self@.secret_too_long() ==> res is Err,
    {
        base64_hmac_sha256(timestamp, self.client_secret.as_str())
    }

    /// Builds the canonical text of `request` and leaves in `request` the
    /// body that is to be sent: cut to the limit where the body is signed,
    /// untouched where it is not.
    pub fn make_data_to_sign(&self, request: &mut RequestData, method: &str) -> (res: String)
        ensures
            res@ == self@.data_to_sign(old(request)@, method@),
            final(request)@ == (RequestModel {
                body: old(request)@.body_to_transmit(method@),
                ..old(request)@
            }),
    {
        let signed = Self::body_is_signed(request.body.as_slice(), request.max_body, method);
        let (body_hash, kept) = Self::process_body(
            request.body.as_slice(),
            request.max_body,
            method,
        );
        if signed {
            request.body = kept;
        }
        let normalized = Self::normalize_headers(&request.headers);
        let mut data = method.to_owned();
        data.append("\t");
        data.append("https");
        data.append("\t");
        data.append(self.host.as_str());
        data.append("\t");
        data.append(request.request_uri.as_str());
        data.append("\t");
        data.append(normalized.as_str());
        data.append("\t");
        data.append(body_hash.as_str());
        data.append("\t");
        data.append(request.unsigned_header.as_str());
        proof {
            reveal_strlit("\t");
            assert("\t"@ =~= seq!['\t']);
        }
        data
    }

    /// Signs `request` as it stands, sent with `method` at `timestamp`, and
    /// leaves in `request` the body that is to be sent.
    pub fn sign_request(&self, request: &mut RequestData, method: &str, timestamp: &str) -> (res:
        Result<String, SignError>)
        ensures
            res matches Ok(signature) ==> signature@ == self@.signature(
                old(request)@,
                method@,
                timestamp@,
            ),
            res matches Err(e) ==> e == SignError::InternalCryptoFailure,
            self@.secret_too_long() ==> res is Err,
            final(request)@ == (RequestModel {
                body: old(request)@.body_to_transmit(method@),
                ..old(request)@
            }),
    {
        let data = self.make_data_to_sign(request, method);
        match self.make_signing_key(timestamp) {
            Ok(key) => base64_hmac_sha256(data.as_str(), key.as_str()),
            Err(e) => Err(e),
        }
    }

    /// Appends a signature to the header that it signs.
    pub fn attach_signature(unsigned_header: &str, signature: &str) -> (res: String)
        ensures
            res@ == with_signature(unsigned_header@, signature@),
    {
        let mut header = unsigned_header.to_owned();
        header.append("signature=");
        header.append(signature);
        header
    }

    /// Renders the header that is signed, from the credentials, the
    /// timestamp and the nonce.
    pub fn make_unsigned_header(&self, timestamp: &str, nonce: &str) -> (res: String)
        ensures
            res@ == self@.unsigned_header(timestamp@, nonce@),
    {
        let mut header = String::from_str("EG1-HMAC-SHA256 client_token=");
        header.append(self.client_token.as_str());
        header.append(";access_token=");
        header.append(self.access_token.as_str());
        header.append(";timestamp=");
        header.append(timestamp);
        header.append(";nonce=");
        header.append(nonce);
        header.append(";");
        header
    }

    /// Builds the unsigned header for `timestamp` and `nonce`, signs the
    /// request with it, and leaves both headers and the body to be sent in
    /// `request`. Where signing fails, the signed header stays as it was.
    pub fn make_auth_header(
        &self,
        timestamp: &str,
        nonce: &str,
        request: &mut RequestData,
        method: &str,
    ) -> (res: Result<(), SignError>)
        ensures
            final(request)@ == (RequestModel {
                body: old(request)@.body_to_transmit(method@),
                unsigned_header: self@.unsigned_header(timestamp@, nonce@),
                signed_header: if res is Ok {
                    self@.signed_header(old(request)@, method@, timestamp@, nonce@)
                } else {
                    old(request)@.signed_header
                },
                ..old(request)@
            }),
            res matches Err(e) ==> e == SignError::InternalCryptoFailure,
            self@.secret_too_long() ==> res is Err,
    {
        let auth_header = self.make_unsigned_header(timestamp, nonce);
        request.unsigned_header = auth_header.clone();
        match self.sign_request(request, method, timestamp) {
            Ok(signature) => {
                request.signed_header = Self::attach_signature(
                    auth_header.as_str(),
                    signature.as_str(),
                );
                Ok(())
            },
            Err(e) => Err(e),
        }
    }

    /// Whether `uri` can be signed: it is not empty and begins with `/`.
    pub fn uri_accepted(uri: &str) -> (res: bool)
        ensures
            res == uri_is_absolute(uri@),
    {
        !uri.is_empty() && uri.get_char(0) == '/'
    }

    /// Signs `request`, sent with `method`, for a given `timestamp` and
    /// `nonce`. A request whose URI is empty or does not begin with `/` is
    /// refused before anything is computed. Otherwise the result is the
    /// `Authorization` header and the body that must be sent with it, or an
    /// internal failure where a primitive failed.
    pub fn sign_with(&self, request: RequestData, method: &str, timestamp: &str, nonce: &str) -> (res:
        Result<(String, Vec<u8>), SignError>)
        ensures
            !request@.can_be_signed() <==> res == Err::<(String, Vec<u8>), SignError>(
                SignError::InvalidArgument,
            ),
            res matches Ok(signed) ==> signed.0@ == self@.signed_header(
                request@,
                method@,
                timestamp@,
                nonce@,
            ) && signed.1@ == request@.body_to_transmit(method@),
            self@.secret_too_long() ==> res is Err,
    {
        if !Self::uri_accepted(request.request_uri.as_str()) {
            return Err(SignError::InvalidArgument);
        }
        let mut request = request;
        match self.make_auth_header(timestamp, nonce, &mut request, method) {
            Ok(_) => Ok((request.signed_header, request.body)),
            Err(e) => Err(e),
        }
    }

    /// Signs `request` as a `GET`, at the current time and under a fresh
    /// nonce, and returns the `Authorization` header. The body takes no part.
    /// The timestamp and the nonce in the header have their fixed layouts.
    pub fn get(&self, request: RequestData) -> (res: Result<String, SignError>)
        ensures
            !request@.can_be_signed() <==> res == Err::<String, SignError>(
                SignError::InvalidArgument,
            ),
            res matches Ok(header) ==> exists|timestamp: Seq<char>, nonce: Seq<char>|
                is_timestamp(timestamp) && is_nonce(nonce) && header@
                    == #[trigger] self@.signed_header(request@, "GET"@, timestamp, nonce),
            self@.secret_too_long() ==> res is Err,
    {
        if !Self::uri_accepted(request.request_uri.as_str()) {
            return Err(SignError::InvalidArgument);
        }
        let timestamp = utc_now_formatted("%Y%m%dT%H:%M:%S+0000");
        let nonce = fresh_nonce();
        match self.sign_with(request, "GET", timestamp.as_str(), nonce.as_str()) {
            Ok(signed) => Ok(signed.0),
            Err(e) => Err(e),
        }
    }

    /// Signs `request` as a `POST`, at the current time and under a fresh
    /// nonce, and returns the `Authorization` header with the body that must
    /// be sent with it: the request's body, cut to the limit where it is
    /// signed. The timestamp and the nonce in the header have their fixed
    /// layouts.
    pub fn post(&self, request: RequestData) -> (res: Result<(String, Vec<u8>), SignError>)
        ensures
            !request@.can_be_signed() <==> res == Err::<(String, Vec<u8>), SignError>(
                SignError::InvalidArgument,
            ),
            res matches Ok(signed) ==> signed.1@ == request@.body_to_transmit("POST"@) && exists|
                timestamp: Seq<char>,
                nonce: Seq<char>,
            |
                is_timestamp(timestamp) && is_nonce(nonce) && signed.0@
                    == #[trigger] self@.signed_header(request@, "POST"@, timestamp, nonce),
            self@.secret_too_long() ==> res is Err,
    {
        if !Self::uri_accepted(request.request_uri.as_str()) {
            return Err(SignError::InvalidArgument);
        }
        let timestamp = utc_now_formatted("%Y%m%dT%H:%M:%S+0000");
        let nonce = fresh_nonce();
        self.sign_with(request, "POST", timestamp.as_str(), nonce.as_str())
    }
}

/// The header and the body sent depend on nothing but the credentials, the
/// request's URI, headers, body and limit, the method, the timestamp and the
/// nonce: two requests that agree in these get the same header, whatever
/// earlier signing has left in them.
pub proof fn lemma_signing_deterministic(
    credentials: Credentials,
    p: RequestModel,
    q: RequestModel,
    method: Seq<char>,
    timestamp: Seq<char>,
    nonce: Seq<char>,
)
    requires
        p.request_uri == q.request_uri,
        p.headers == q.headers,
        p.body == q.body,
        p.max_body == q.max_body,
    ensures
        credentials.signed_header(p, method, timestamp, nonce) == credentials.signed_header(
            q,
            method,
            timestamp,
            nonce,
        ),
        p.body_to_transmit(method) == q.body_to_transmit(method),
{
}

/// The header of a `GET` does not depend on the body or on the limit set for
/// it, and its canonical text has an empty field where the body's digest
/// would stand.
pub proof fn lemma_get_ignores_body(
    credentials: Credentials,
    p: RequestModel,
    q: RequestModel,
    timestamp: Seq<char>,
    nonce: Seq<char>,
)
    requires
        p.request_uri == q.request_uri,
        p.headers == q.headers,
    ensures
        p.body_hash("GET"@) == Seq::<char>::empty(),
        credentials.signed_header(p, "GET"@, timestamp, nonce) == credentials.signed_header(
            q,
            "GET"@,
            timestamp,
            nonce,
        ),
{
    lemma_only_post_hashes_body(p.body, p.max_body, "GET"@);
    lemma_only_post_hashes_body(q.body, q.max_body, "GET"@);
}

/// Where each part of a text of five parts stands.
proof fn lemma_parts_in_place(
    head: Seq<char>,
    stamp: Seq<char>,
    mark: Seq<char>,
    nonce: Seq<char>,
    tail: Seq<char>,
)
    ensures
        forall|i: int|
            0 <= i < stamp.len() ==> (head + stamp + mark + nonce + tail)[head.len() + i]
                == #[trigger] stamp[i],
        forall|i: int|
            0 <= i < mark.len() ==> (head + stamp + mark + nonce + tail)[head.len() + stamp.len()
                + i] == #[trigger] mark[i],
        forall|i: int|
            0 <= i < nonce.len() ==> (head + stamp + mark + nonce + tail)[head.len() + stamp.len()
                + mark.len() + i] == #[trigger] nonce[i],
{
}

/// Calls under different nonces give different headers, whatever the
/// requests, the methods and the times are: the nonce stands in the header at
/// a place that the timestamp's layout fixes.
pub proof fn lemma_distinct_nonces_distinct_headers(
    credentials: Credentials,
    p: RequestModel,
    q: RequestModel,
    method_p: Seq<char>,
    method_q: Seq<char>,
    timestamp_p: Seq<char>,
    timestamp_q: Seq<char>,
    nonce_p: Seq<char>,
    nonce_q: Seq<char>,
)
    requires
        is_timestamp(timestamp_p),
        is_timestamp(timestamp_q),
        is_nonce(nonce_p),
        is_nonce(nonce_q),
        nonce_p != nonce_q,
    ensures
        credentials.signed_header(p, method_p, timestamp_p, nonce_p) != credentials.signed_header(
            q,
            method_q,
            timestamp_q,
            nonce_q,
        ),
{
    let head = "EG1-HMAC-SHA256 client_token="@ + credentials.client_token + ";access_token="@
        + credentials.access_token + ";timestamp="@;
    let mark = ";nonce="@;
    let hp = credentials.signed_header(p, method_p, timestamp_p, nonce_p);
    let hq = credentials.signed_header(q, method_q, timestamp_q, nonce_q);
    let up = credentials.unsigned_header(timestamp_p, nonce_p);
    let uq = credentials.unsigned_header(timestamp_q, nonce_q);
    let sp = credentials.signature(RequestModel { unsigned_header: up, ..p }, method_p, timestamp_p);
    let sq = credentials.signature(RequestModel { unsigned_header: uq, ..q }, method_q, timestamp_q);
    let tp = ";"@ + "signature="@ + sp;
    let tq = ";"@ + "signature="@ + sq;
    reveal_strlit(";nonce=");
    assert(mark.len() == 7 && mark[0] == ';');
    assert(hp =~= head + timestamp_p + mark + nonce_p + tp);
    assert(hq =~= head + timestamp_q + mark + nonce_q + tq);
    lemma_parts_in_place(head, timestamp_p, mark, nonce_p, tp);
    lemma_parts_in_place(head, timestamp_q, mark, nonce_q, tq);
    lemma_timestamp_has_no_semicolon(timestamp_p);
    lemma_timestamp_has_no_semicolon(timestamp_q);
    let lp = timestamp_p.len() as int;
    let lq = timestamp_q.len() as int;
    if lp < lq {
        assert(hp[head.len() + lp + 0] == mark[0]);
        assert(hq[head.len() + lp] == timestamp_q[lp]);
    } else if lq < lp {
        assert(hq[head.len() + lq + 0] == mark[0]);
        assert(hp[head.len() + lq] == timestamp_p[lq]);
    } else {
        if hp == hq {
            assert forall|i: int| 0 <= i < 36 implies nonce_p[i] == nonce_q[i] by {
                assert(hp[head.len() + lp + 7 + i] == nonce_p[i]);
                assert(hq[head.len() + lq + 7 + i] == nonce_q[i]);
            }
            assert(nonce_p =~= nonce_q);
        }
    }
}

/// No character of a timestamp is a semicolon.
proof fn lemma_timestamp_has_no_semicolon(t: Seq<char>)
    requires
        is_timestamp(t),
    ensures
        forall|i: int| 0 <= i < t.len() ==> #[trigger] t[i] != ';',
{
    let year = t.len() - 18;
    let rest = t.subrange(year, t.len() as int);
    assert forall|i: int| 0 <= i < t.len() implies #[trigger] t[i] != ';' by {
        if i >= year {
            assert(t[i] == rest[i - year]);
        }
    }
}

impl Default for Authenticator {
    /// Credentials with every field empty.
    fn default() -> (res: Authenticator)
        ensures
            res@ == (Credentials {
                host: Seq::empty(),
                client_token: Seq::empty(),
                client_secret: Seq::empty(),
                access_token: Seq::empty(),
            }),
    {
        Authenticator {
            host: String::new(),
            client_token: String::new(),
            client_secret: String::new(),
            access_token: String::new(),
        }
    }
}

} // verus!
