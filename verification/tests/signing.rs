use edgegrid_rs::auth::Authenticator;
use edgegrid_rs::crypto::SignError;
use edgegrid_rs::request::RequestData;

const HOST: &str = "akaa-baseurl-xxxxxxxxxxx-xxxxxxxxxxxxx.luna.akamaiapis.net";
const CLIENT_TOKEN: &str = "akab-client-token-xxx-xxxxxxxxxxxxxxxx";
const CLIENT_SECRET: &str = "xxxxxxxxxxxxxxxxxxxxxxxxxxxxxxxxxxxxxxxxxxx=";
const ACCESS_TOKEN: &str = "akab-access-token-xxx-xxxxxxxxxxxxxxxx";
const TIMESTAMP: &str = "20140321T19:34:21+0000";
const NONCE: &str = "nonce-xx-xxxx-xxxx-xxxx-xxxxxxxxxxxx";
const UNSIGNED: &str = "EG1-HMAC-SHA256 client_token=akab-client-token-xxx-xxxxxxxxxxxxxxxx;access_token=akab-access-token-xxx-xxxxxxxxxxxxxxxx;timestamp=20140321T19:34:21+0000;nonce=nonce-xx-xxxx-xxxx-xxxx-xxxxxxxxxxxx;";

fn authenticator() -> Authenticator {
    Authenticator::new(HOST, CLIENT_TOKEN, CLIENT_SECRET, ACCESS_TOKEN)
}

fn signature_part(header: &str) -> String {
    let at = header.find("signature=").expect("a signature field");
    header[at + "signature=".len()..].to_string()
}

#[test]
fn new_keeps_the_credentials() {
    let auth = authenticator();
    assert_eq!(auth.host, HOST);
    assert_eq!(auth.client_token, CLIENT_TOKEN);
    assert_eq!(auth.client_secret, CLIENT_SECRET);
    assert_eq!(auth.access_token, ACCESS_TOKEN);
}

#[test]
fn default_authenticator_is_empty() {
    let auth = Authenticator::default();
    assert_eq!(auth.host, "");
    assert_eq!(auth.client_token, "");
    assert_eq!(auth.client_secret, "");
    assert_eq!(auth.access_token, "");
}

#[test]
fn known_vector_root_path() {
    let signed = authenticator()
        .sign_with(RequestData::new("/"), "GET", TIMESTAMP, NONCE)
        .unwrap();
    assert_eq!(
        signed.0,
        format!("{}signature=tL+y4hxyHxgWVD30X3pWnGKHcPzmrIF+LThiAOhMxYU=", UNSIGNED)
    );
    assert_eq!(signed.1, Vec::<u8>::new());
}

#[test]
fn known_vector_ghost_locations() {
    let request = RequestData::new("/diagnostic-tools/v2/ghost-locations/available");
    let signed = authenticator().sign_with(request, "GET", TIMESTAMP, NONCE).unwrap();
    assert_eq!(
        signed.0,
        format!("{}signature=M+DolzuxB1YqbQGJnM+4YGJZC4u+dfQkxKpk0/5A5HA=", UNSIGNED)
    );
}

#[test]
fn known_vector_with_headers() {
    let request = RequestData::new("/testapi/v1/t4").with_headers(vec![
        ("X-Test1".to_string(), " test-simple-header ".to_string()),
        ("Content-Type".to_string(), "application/json".to_string()),
    ]);
    let signed = authenticator().sign_with(request, "GET", TIMESTAMP, NONCE).unwrap();
    assert_eq!(
        signed.0,
        format!("{}signature=NigSmMKuxetjeZ51WzTGfPjULNLzYVtwHTtnwkjfxXs=", UNSIGNED)
    );
}

#[test]
fn known_vector_post_within_limit() {
    let body = b"datadatadatadatadatadatadatadata";
    let request = RequestData::new("/testapi/v1/t3").with_body(body).with_max_body(2048);
    let signed = authenticator().sign_with(request, "POST", TIMESTAMP, NONCE).unwrap();
    assert_eq!(
        signed.0,
        format!("{}signature=hXm4iCxtpN22m4cbZb4lVLW5rhX8Ca82vCFqXzSTPe4=", UNSIGNED)
    );
    assert_eq!(signed.1, body.to_vec());
}

#[test]
fn signing_is_deterministic() {
    let auth = authenticator();
    let request = RequestData::new("/testapi/v1/t3")
        .with_headers(vec![("Accept".to_string(), "text/plain".to_string())])
        .with_body(b"payload")
        .with_max_body(4);
    let first = auth.sign_with(request.clone(), "POST", TIMESTAMP, NONCE).unwrap();
    let second = auth.sign_with(request.clone(), "POST", TIMESTAMP, NONCE).unwrap();
    let third = authenticator().sign_with(request, "POST", TIMESTAMP, NONCE).unwrap();
    assert_eq!(first, second);
    assert_eq!(first, third);
}

#[test]
fn scratch_fields_do_not_reach_the_signature() {
    let auth = authenticator();
    let clean = RequestData::new("/a");
    let mut used = RequestData::new("/a");
    used.unsigned_header = "left over".to_string();
    used.signed_header = "left over too".to_string();
    assert_eq!(
        auth.sign_with(clean, "GET", TIMESTAMP, NONCE),
        auth.sign_with(used, "GET", TIMESTAMP, NONCE)
    );
}

#[test]
fn post_body_over_limit_is_truncated() {
    let body = b"datadatadatadatadatadatadatadata";
    let request = RequestData::new("/testapi/v1/t3").with_body(body).with_max_body(8);
    let signed = authenticator().sign_with(request, "POST", TIMESTAMP, NONCE).unwrap();
    assert_eq!(signed.1, b"datadata".to_vec());
    assert_eq!(signed.1.len(), 8);
    assert_eq!(
        signed.0,
        format!("{}signature=RQFLYSyJ3R4FD7Kki04X+TXmEwY01nmwf9jwZUpNbzQ=", UNSIGNED)
    );
    let short = RequestData::new("/testapi/v1/t3").with_body(b"datadata").with_max_body(8);
    let same = authenticator().sign_with(short, "POST", TIMESTAMP, NONCE).unwrap();
    assert_eq!(signed, same);
}

#[test]
fn truncation_is_by_bytes_not_characters() {
    let body = "h\u{e9}llo".as_bytes();
    let (_, kept) = Authenticator::process_body(body, 2, "POST");
    assert_eq!(kept, vec![b'h', 0xc3]);
}

#[test]
fn post_with_body_one_over_limit() {
    let (hash, kept) = Authenticator::process_body(b"abcd", 3, "POST");
    assert_eq!(kept, b"abc".to_vec());
    assert_eq!(hash, "ungWv48Bz+pBQUDeXa4iI7ADYaOWF3qctBD/YfIAFa0=");
}

#[test]
fn post_with_body_at_limit_is_kept_whole() {
    let (hash, kept) = Authenticator::process_body(b"abc", 3, "POST");
    assert_eq!(kept, b"abc".to_vec());
    assert_eq!(hash, "ungWv48Bz+pBQUDeXa4iI7ADYaOWF3qctBD/YfIAFa0=");
}

#[test]
fn post_without_limit_has_no_hash_and_no_body() {
    let (hash, kept) = Authenticator::process_body(b"abc", 0, "POST");
    assert_eq!(hash, "");
    assert_eq!(kept, Vec::<u8>::new());
}

#[test]
fn post_with_empty_body_has_no_hash() {
    let (hash, kept) = Authenticator::process_body(b"", 16, "POST");
    assert_eq!(hash, "");
    assert_eq!(kept, Vec::<u8>::new());
}

#[test]
fn get_never_hashes_the_body() {
    let (hash, kept) = Authenticator::process_body(b"abcdef", 3, "GET");
    assert_eq!(hash, "");
    assert_eq!(kept, Vec::<u8>::new());
    let (hash, _) = Authenticator::process_body(b"abcdef", 0, "GET");
    assert_eq!(hash, "");
    let (hash, _) = Authenticator::process_body(b"abcdef", 100, "post");
    assert_eq!(hash, "");
}

#[test]
fn get_signature_ignores_body_and_limit() {
    let auth = authenticator();
    let plain = RequestData::new("/");
    let loaded = RequestData::new("/").with_body(b"some body").with_max_body(4);
    let a = auth.sign_with(plain, "GET", TIMESTAMP, NONCE).unwrap();
    let b = auth.sign_with(loaded, "GET", TIMESTAMP, NONCE).unwrap();
    assert_eq!(a.0, b.0);
    assert_eq!(
        a.0,
        format!("{}signature=tL+y4hxyHxgWVD30X3pWnGKHcPzmrIF+LThiAOhMxYU=", UNSIGNED)
    );
}

#[test]
fn data_to_sign_of_a_get_has_an_empty_hash_field() {
    let auth = authenticator();
    let mut request = RequestData::new("/").with_body(b"ignored").with_max_body(3);
    request.unsigned_header = UNSIGNED.to_string();
    let data = auth.make_data_to_sign(&mut request, "GET");
    assert_eq!(data, format!("GET\thttps\t{}\t/\t\t\t{}", HOST, UNSIGNED));
    assert_eq!(request.body, b"ignored".to_vec());
    assert_eq!(request.max_body, 3);
}

#[test]
fn data_to_sign_of_a_post() {
    let auth = authenticator();
    let mut request = RequestData::new("/testapi/v1/t3")
        .with_headers(vec![("X-A".to_string(), "b".to_string())])
        .with_body(b"datadatadatadatadatadatadatadata")
        .with_max_body(8);
    request.unsigned_header = UNSIGNED.to_string();
    let data = auth.make_data_to_sign(&mut request, "POST");
    assert_eq!(
        data,
        format!(
            "POST\thttps\t{}\t/testapi/v1/t3\tx-a:b\t0LVKa3EsxjPk+co+3pGAfrI+rvJx4WXkwkXEv4PDOF0=\t{}",
            HOST, UNSIGNED
        )
    );
    assert_eq!(request.body, b"datadata".to_vec());
    assert_eq!(request.request_uri, "/testapi/v1/t3");
    assert_eq!(request.max_body, 8);
    assert_eq!(request.headers.len(), 1);
}

#[test]
fn signing_key_for_a_timestamp() {
    let key = authenticator().make_signing_key(TIMESTAMP).unwrap();
    assert_eq!(key, "znsRMDBRqTXGJ7Ojip3/h2FGPu3LuoMYWgv9PKEnE/o=");
}

#[test]
fn sign_request_gives_the_bare_signature() {
    let auth = authenticator();
    let mut request = RequestData::new("/");
    request.unsigned_header = UNSIGNED.to_string();
    let signature = auth.sign_request(&mut request, "GET", TIMESTAMP).unwrap();
    assert_eq!(signature, "tL+y4hxyHxgWVD30X3pWnGKHcPzmrIF+LThiAOhMxYU=");
}

#[test]
fn unsigned_header_has_the_wire_format() {
    let header = authenticator().make_unsigned_header(TIMESTAMP, NONCE);
    assert_eq!(header, UNSIGNED);
}

#[test]
fn attach_signature_appends_the_field() {
    assert_eq!(Authenticator::attach_signature("a=b;", "c2ln"), "a=b;signature=c2ln");
}

#[test]
fn make_auth_header_fills_both_headers() {
    let auth = authenticator();
    let mut request = RequestData::new("/").with_body(b"x").with_max_body(1);
    auth.make_auth_header(TIMESTAMP, NONCE, &mut request, "GET").unwrap();
    assert_eq!(request.unsigned_header, UNSIGNED);
    assert_eq!(
        request.signed_header,
        format!("{}signature=tL+y4hxyHxgWVD30X3pWnGKHcPzmrIF+LThiAOhMxYU=", UNSIGNED)
    );
    assert_eq!(request.body, b"x".to_vec());
}

#[test]
fn empty_uri_is_refused() {
    let auth = authenticator();
    assert_eq!(
        auth.sign_with(RequestData::new(""), "GET", TIMESTAMP, NONCE),
        Err(SignError::InvalidArgument)
    );
    assert_eq!(auth.get(RequestData::new("")), Err(SignError::InvalidArgument));
    assert_eq!(auth.post(RequestData::new("")), Err(SignError::InvalidArgument));
}

#[test]
fn relative_uri_is_refused() {
    let auth = authenticator();
    assert_eq!(
        auth.sign_with(RequestData::new("papi/v1"), "POST", TIMESTAMP, NONCE),
        Err(SignError::InvalidArgument)
    );
    assert_eq!(auth.get(RequestData::new("https://host/")), Err(SignError::InvalidArgument));
    assert_eq!(auth.post(RequestData::new(" /x")), Err(SignError::InvalidArgument));
}

#[test]
fn uri_acceptance() {
    assert!(Authenticator::uri_accepted("/"));
    assert!(Authenticator::uri_accepted("/a?b=c"));
    assert!(!Authenticator::uri_accepted(""));
    assert!(!Authenticator::uri_accepted("a/"));
}

#[test]
fn empty_host_and_tokens_still_sign() {
    let auth = Authenticator::new("", "", "secret", "");
    let signed = auth.sign_with(RequestData::new("/"), "GET", TIMESTAMP, NONCE).unwrap();
    assert!(signed.0.starts_with(
        "EG1-HMAC-SHA256 client_token=;access_token=;timestamp=20140321T19:34:21+0000;nonce=nonce-xx-xxxx-xxxx-xxxx-xxxxxxxxxxxx;signature="
    ));
    assert_eq!(signature_part(&signed.0).len(), 44);
}

#[test]
fn empty_secret_gives_a_whole_header_or_a_failure() {
    let auth = Authenticator::new(HOST, CLIENT_TOKEN, "", ACCESS_TOKEN);
    match auth.sign_with(RequestData::new("/"), "GET", TIMESTAMP, NONCE) {
        Ok(signed) => {
            assert!(signed.0.starts_with(UNSIGNED));
            assert_eq!(signature_part(&signed.0).len(), 44);
        }
        Err(e) => assert_eq!(e, SignError::InternalCryptoFailure),
    }
}

#[test]
fn every_input_changes_the_signature() {
    let base = authenticator()
        .sign_with(
            RequestData::new("/p")
                .with_headers(vec![("h".to_string(), "v".to_string())])
                .with_body(b"body")
                .with_max_body(16),
            "POST",
            TIMESTAMP,
            NONCE,
        )
        .unwrap()
        .0;
    let request = |uri: &str, name: &str, value: &str, body: &[u8]| {
        RequestData::new(uri)
            .with_headers(vec![(name.to_string(), value.to_string())])
            .with_body(body)
            .with_max_body(16)
    };
    let variants = vec![
        authenticator().sign_with(request("/q", "h", "v", b"body"), "POST", TIMESTAMP, NONCE),
        authenticator().sign_with(request("/p", "i", "v", b"body"), "POST", TIMESTAMP, NONCE),
        authenticator().sign_with(request("/p", "h", "w", b"body"), "POST", TIMESTAMP, NONCE),
        authenticator().sign_with(request("/p", "h", "v", b"bodz"), "POST", TIMESTAMP, NONCE),
        authenticator().sign_with(request("/p", "h", "v", b"body"), "GET", TIMESTAMP, NONCE),
        Authenticator::new("akaa-baseurl.example.net", CLIENT_TOKEN, CLIENT_SECRET, ACCESS_TOKEN)
            .sign_with(request("/p", "h", "v", b"body"), "POST", TIMESTAMP, NONCE),
        Authenticator::new(HOST, CLIENT_TOKEN, "yxxxxxxxxxxxxxxxxxxxxxxxxxxxxxxxxxxxxxxxxxx=", ACCESS_TOKEN)
            .sign_with(request("/p", "h", "v", b"body"), "POST", TIMESTAMP, NONCE),
    ];
    for variant in variants {
        let header = variant.unwrap().0;
        assert_ne!(signature_part(&header), signature_part(&base));
    }
}

#[test]
fn get_produces_a_verifiable_header() {
    let auth = authenticator();
    let request = RequestData::new("/diagnostic-tools/v2/ghost-locations/available");
    let header = auth.get(request.clone()).unwrap();
    let prefix = format!(
        "EG1-HMAC-SHA256 client_token={};access_token={};timestamp=",
        CLIENT_TOKEN, ACCESS_TOKEN
    );
    assert!(header.starts_with(&prefix));
    let rest = &header[prefix.len()..];
    let fields: Vec<&str> = rest.split(';').collect();
    assert_eq!(fields.len(), 3);
    let timestamp = fields[0];
    assert_eq!(timestamp.len(), 22);
    assert!(timestamp.ends_with("+0000"));
    assert_eq!(&timestamp[8..9], "T");
    assert_eq!(&timestamp[11..12], ":");
    assert_eq!(&timestamp[14..15], ":");
    assert!(timestamp[..8].chars().all(|c| c.is_ascii_digit()));
    assert!(fields[1].starts_with("nonce="));
    let nonce = &fields[1]["nonce=".len()..];
    assert_eq!(nonce.len(), 36);
    assert_eq!(nonce.matches('-').count(), 4);
    assert_eq!(&nonce[14..15], "4");
    assert!(fields[2].starts_with("signature="));
    let again = auth.sign_with(request, "GET", timestamp, nonce).unwrap();
    assert_eq!(again.0, header);
}

#[test]
fn post_produces_a_verifiable_header_and_body() {
    let auth = authenticator();
    let request = RequestData::new("/testapi/v1/t3").with_body(b"0123456789").with_max_body(4);
    let (header, body) = auth.post(request.clone()).unwrap();
    assert_eq!(body, b"0123".to_vec());
    let timestamp_at = header.find("timestamp=").unwrap() + "timestamp=".len();
    let timestamp = &header[timestamp_at..timestamp_at + 22];
    let nonce_at = header.find("nonce=").unwrap() + "nonce=".len();
    let nonce = &header[nonce_at..nonce_at + 36];
    let again = auth.sign_with(request, "POST", timestamp, nonce).unwrap();
    assert_eq!(again.0, header);
    assert_eq!(again.1, body);
}

#[test]
fn post_with_default_limit_sends_the_body_as_given() {
    let auth = authenticator();
    let (_, body) = auth.post(RequestData::new("/x").with_body(b"abc")).unwrap();
    assert_eq!(body, b"abc".to_vec());
}

#[test]
fn post_without_limit_signs_an_empty_hash_field_and_keeps_the_body() {
    let body = b"datadatadatadatadatadatadatadata";
    let request = RequestData::new("/testapi/v1/t3").with_body(body);
    let signed = authenticator().sign_with(request, "POST", TIMESTAMP, NONCE).unwrap();
    assert_eq!(signed.0, format!("{}signature=mU0HuC9tnXbq+AmsQsj9/QW8JqKaA06yHjlVeRN2Znc=", UNSIGNED));
    assert_eq!(signed.1, body.to_vec());
}

#[test]
fn get_leaves_the_body_as_it_was() {
    let auth = authenticator();
    let request = RequestData::new("/").with_body(b"0123456789").with_max_body(4);
    let signed = auth.sign_with(request.clone(), "GET", TIMESTAMP, NONCE).unwrap();
    assert_eq!(signed.1, b"0123456789".to_vec());
    let mut kept = request;
    auth.sign_request(&mut kept, "GET", TIMESTAMP).unwrap();
    assert_eq!(kept.body, b"0123456789".to_vec());
    assert_eq!(kept.max_body, 4);
}

#[test]
fn post_with_empty_body_stays_empty() {
    let request = RequestData::new("/x").with_max_body(8);
    let signed = authenticator().sign_with(request, "POST", TIMESTAMP, NONCE).unwrap();
    assert_eq!(signed.1, Vec::<u8>::new());
}

#[test]
fn body_is_signed_only_for_a_post_with_body_and_limit() {
    assert!(Authenticator::body_is_signed(b"a", 1, "POST"));
    assert!(!Authenticator::body_is_signed(b"a", 0, "POST"));
    assert!(!Authenticator::body_is_signed(b"", 1, "POST"));
    assert!(!Authenticator::body_is_signed(b"a", 1, "GET"));
    assert!(!Authenticator::body_is_signed(b"a", 1, "post"));
}

#[test]
fn different_nonces_give_different_headers() {
    let auth = authenticator();
    let first = "936da01f-9abd-4d9d-80c7-02af85c822a8";
    let second = "936da01f-9abd-4d9d-80c7-02af85c822a9";
    let a = auth.sign_with(RequestData::new("/"), "GET", TIMESTAMP, first).unwrap();
    let b = auth.sign_with(RequestData::new("/"), "GET", TIMESTAMP, second).unwrap();
    assert_ne!(a.0, b.0);
    assert!(a.0.contains(&format!("nonce={};", first)));
    assert!(b.0.contains(&format!("nonce={};", second)));
}

#[test]
fn nonce_is_hyphenated_lowercase_hex() {
    let header = authenticator().get(RequestData::new("/")).unwrap();
    let nonce_at = header.find("nonce=").unwrap() + "nonce=".len();
    let nonce = &header[nonce_at..nonce_at + 36];
    assert_eq!(&header[nonce_at + 36..nonce_at + 37], ";");
    for (i, c) in nonce.chars().enumerate() {
        if i == 8 || i == 13 || i == 18 || i == 23 {
            assert_eq!(c, '-');
        } else {
            assert!(c.is_ascii_digit() || ('a'..='f').contains(&c));
        }
    }
}

#[test]
fn repeated_calls_use_distinct_nonces() {
    let auth = authenticator();
    let mut nonces = Vec::new();
    for _ in 0..16 {
        let header = auth.get(RequestData::new("/")).unwrap();
        let nonce_at = header.find("nonce=").unwrap() + "nonce=".len();
        nonces.push(header[nonce_at..nonce_at + 36].to_string());
    }
    for i in 0..nonces.len() {
        for j in 0..i {
            assert_ne!(nonces[i], nonces[j]);
        }
    }
}
