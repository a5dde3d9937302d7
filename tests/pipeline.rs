use base64::Engine;
use encrypted_urls::{
    decode, encode, encode_inputs, encrypt, expand, link_record, link_records, run_batch,
    seal_token, BatchError, EncryptError, InputRecord, OutputRecord,
};

const KEY: &[u8] = b"k0123456789abcde";

fn input(email: &str, first_name: &str, date: &str) -> InputRecord {
    InputRecord {
        email: email.to_string(),
        first_name: first_name.to_string(),
        date_of_service: date.to_string(),
    }
}

fn read_back(bytes: &[u8]) -> Vec<Vec<String>> {
    let mut reader = csv::ReaderBuilder::new()
        .has_headers(false)
        .flexible(true)
        .from_reader(bytes);
    reader
        .records()
        .map(|r| r.unwrap().iter().map(String::from).collect())
        .collect()
}

fn url_safe(token: &str) -> bool {
    token
        .chars()
        .all(|c| c.is_ascii_alphanumeric() || c == '-' || c == '_')
}

#[test]
fn expand_replaces_placeholder() {
    assert_eq!(
        expand("https://a/?x={encrypted}", "TOK123"),
        "https://a/?x=TOK123"
    );
}

#[test]
fn expand_replaces_every_occurrence() {
    assert_eq!(expand("{encrypted}/{encrypted}", "ab"), "ab/ab");
}

#[test]
fn expand_without_placeholder_keeps_template() {
    assert_eq!(expand("https://a/?x=1", "TOK"), "https://a/?x=1");
    assert_eq!(expand("{encrypted", "TOK"), "{encrypted");
    assert_eq!(expand("", "TOK"), "");
}

#[test]
fn expand_keeps_non_ascii_text() {
    assert_eq!(expand("é{encrypted}ü", "x"), "éxü");
}

#[test]
fn encrypt_rejects_short_and_long_keys() {
    for len in [0usize, 8, 15, 17, 24, 32] {
        let key = vec![7u8; len];
        assert_eq!(encrypt(&key, b"2023-01-01"), Err(EncryptError::KeyLength));
    }
    assert_eq!(encrypt(b"biFo9shi", b"2023-01-01"), Err(EncryptError::KeyLength));
}

#[test]
fn encrypt_token_layout() {
    let token = encrypt(KEY, b"2023-01-01").unwrap();
    assert!(url_safe(&token));
    assert!(!token.contains('='));
    let bytes = base64::engine::general_purpose::URL_SAFE_NO_PAD
        .decode(&token)
        .unwrap();
    assert_eq!(bytes.len(), 12 + 10 + 16);
}

#[test]
fn encrypt_token_length() {
    let token = encrypt(KEY, b"2023-01-01").unwrap();
    assert_eq!(token.len(), 51);
    let empty = encrypt(KEY, b"").unwrap();
    assert_eq!(empty.len(), 38);
}

#[test]
fn encode_inputs_writes_header_only_for_no_records() {
    let bytes = encode_inputs(&vec![]).unwrap();
    assert_eq!(
        String::from_utf8(bytes).unwrap(),
        "Email,First Name,Date of Service\n"
    );
}

#[test]
fn encrypt_twice_gives_different_tokens() {
    let a = encrypt(KEY, b"2023-01-01").unwrap();
    let b = encrypt(KEY, b"2023-01-01").unwrap();
    assert_ne!(a, b);
}

#[test]
fn seal_token_is_fixed_by_nonce() {
    let nonce = [3u8; 12];
    let a = seal_token(KEY, &nonce, b"hello").unwrap();
    let b = seal_token(KEY, &nonce, b"hello").unwrap();
    assert_eq!(a, b);
    let bytes = base64::engine::general_purpose::URL_SAFE_NO_PAD
        .decode(&a)
        .unwrap();
    assert_eq!(&bytes[..12], &nonce[..]);
    assert_eq!(bytes.len(), 12 + 5 + 16);
    assert_ne!(&bytes[12..17], b"hello");
}

#[test]
fn seal_token_known_vector() {
    // AES-128-GCM, all-zero key and nonce, empty message: the tag alone.
    let tag: [u8; 16] = [
        0x58, 0xe2, 0xfc, 0xce, 0xfa, 0x7e, 0x30, 0x61, 0x36, 0x7f, 0x1d, 0x57, 0xa4, 0xe7, 0x45,
        0x5a,
    ];
    let mut payload = vec![0u8; 12];
    payload.extend_from_slice(&tag);
    let expected = base64::engine::general_purpose::URL_SAFE_NO_PAD.encode(&payload);
    assert_eq!(seal_token(&[0u8; 16], &[0u8; 12], b""), Ok(expected));
}

#[test]
fn seal_token_rejects_bad_key() {
    assert_eq!(
        seal_token(b"short", &[0u8; 12], b"x"),
        Err(EncryptError::KeyLength)
    );
}

#[test]
fn decode_reads_records_in_order() {
    let text = "Email,First Name,Date of Service\na@x.com,Alice,2023-01-01\nb@y.org,Bob,2023-02-02\n";
    let recs = decode(text.as_bytes()).unwrap();
    assert_eq!(
        recs,
        vec![
            input("a@x.com", "Alice", "2023-01-01"),
            input("b@y.org", "Bob", "2023-02-02")
        ]
    );
}

#[test]
fn decode_header_only_gives_no_records() {
    let recs = decode(b"Email,First Name,Date of Service\n").unwrap();
    assert!(recs.is_empty());
}

#[test]
fn decode_rejects_short_row() {
    let text = "Email,First Name,Date of Service\na@x.com,Alice\n";
    assert_eq!(decode(text.as_bytes()), Err(BatchError::Parse { row: Some(0) }));
}

#[test]
fn decode_rejects_long_row() {
    let text = "Email,First Name,Date of Service\nb@y.org,Bob,2023-02-02\na@x.com,Alice,2023-01-01,extra\n";
    assert_eq!(decode(text.as_bytes()), Err(BatchError::Parse { row: Some(1) }));
}

#[test]
fn decode_rejects_wrong_header() {
    assert_eq!(
        decode(b"email,First Name,Date of Service\na,b,c\n"),
        Err(BatchError::Parse { row: None })
    );
    assert_eq!(
        decode(b"Email,FirstName,Date of Service\na,b,c\n"),
        Err(BatchError::Parse { row: None })
    );
    assert_eq!(decode(b"Email,First Name\na,b\n"), Err(BatchError::Parse { row: None }));
}

#[test]
fn decode_rejects_empty_input() {
    assert_eq!(decode(b""), Err(BatchError::Parse { row: None }));
}

#[test]
fn decode_rejects_invalid_utf8() {
    assert_eq!(
        decode(b"Email,First Name,Date of Service\n\xff,b,c\n"),
        Err(BatchError::Parse { row: None })
    );
}

#[test]
fn round_trip_through_input_schema() {
    let recs = vec![
        input("a@x.com", "Alice", "2023-01-01"),
        input("q\"uote@x.com", "Comma, Carl", "line\nbreak"),
        input("", " spaced ", "2023-03-03"),
    ];
    let bytes = encode_inputs(&recs).unwrap();
    assert_eq!(decode(&bytes).unwrap(), recs);
}

#[test]
fn encode_writes_header_and_rows() {
    let outs = vec![OutputRecord {
        email: "a@x.com".to_string(),
        first_name: "Alice".to_string(),
        date_of_service: "2023-01-01".to_string(),
        url: "https://e/?id=T".to_string(),
    }];
    let bytes = encode(&outs).unwrap();
    assert_eq!(
        String::from_utf8(bytes).unwrap(),
        "Email,First Name,Date of Service,URL\na@x.com,Alice,2023-01-01,https://e/?id=T\n"
    );
}

#[test]
fn encode_escapes_delimiters() {
    let outs = vec![OutputRecord {
        email: "a,b".to_string(),
        first_name: "say \"hi\"".to_string(),
        date_of_service: "x\ny".to_string(),
        url: "u".to_string(),
    }];
    let bytes = encode(&outs).unwrap();
    let rows = read_back(&bytes);
    assert_eq!(rows[1], vec!["a,b", "say \"hi\"", "x\ny", "u"]);
}

#[test]
fn link_record_keeps_fields() {
    let rec = input("a@x.com", "Alice", "2023-01-01");
    let out = link_record(&rec, "https://e/?id={encrypted}", "TOK");
    assert_eq!(out.email, "a@x.com");
    assert_eq!(out.first_name, "Alice");
    assert_eq!(out.date_of_service, "2023-01-01");
    assert_eq!(out.url, "https://e/?id=TOK");
}

#[test]
fn link_records_preserves_order() {
    let recs = vec![
        input("a@x.com", "Alice", "2023-01-01"),
        input("b@y.org", "Bob", "2023-02-02"),
        input("c@z.net", "Cleo", "2023-03-03"),
    ];
    let outs = link_records(&recs, KEY, "u/{encrypted}").unwrap();
    assert_eq!(outs.len(), 3);
    for (rec, out) in recs.iter().zip(outs.iter()) {
        assert_eq!(out.email, rec.email);
        assert_eq!(out.first_name, rec.first_name);
        assert_eq!(out.date_of_service, rec.date_of_service);
        assert!(out.url.starts_with("u/"));
        assert!(url_safe(&out.url[2..]));
    }
}

#[test]
fn link_records_key_length_error() {
    let recs = vec![input("a@x.com", "Alice", "2023-01-01")];
    assert_eq!(
        link_records(&recs, b"biFo9shi", "{encrypted}"),
        Err(BatchError::KeyLength { row: 0 })
    );
    assert_eq!(link_records(&vec![], b"biFo9shi", "{encrypted}"), Ok(vec![]));
}

#[test]
fn end_to_end_single_row() {
    let text = "Email,First Name,Date of Service\na@x.com,Alice,2023-01-01\n";
    let out = run_batch(
        text.as_bytes(),
        b"k0123456789abcde",
        "https://example.com/?id={encrypted}",
    )
    .unwrap();
    let rows = read_back(&out);
    assert_eq!(rows.len(), 2);
    assert_eq!(rows[0], vec!["Email", "First Name", "Date of Service", "URL"]);
    assert_eq!(rows[1][..3], ["a@x.com", "Alice", "2023-01-01"]);
    let token = rows[1][3]
        .strip_prefix("https://example.com/?id=")
        .unwrap();
    assert!(url_safe(token));
    assert_eq!(token.len(), 51);
    let bytes = base64::engine::general_purpose::URL_SAFE_NO_PAD
        .decode(token)
        .unwrap();
    assert_eq!(bytes.len(), 12 + "2023-01-01".len() + 16);
}

#[test]
fn empty_batch_gives_header_only() {
    let out = run_batch(
        b"Email,First Name,Date of Service\n",
        b"k0123456789abcde",
        "https://example.com/?id={encrypted}",
    )
    .unwrap();
    assert_eq!(
        String::from_utf8(out).unwrap(),
        "Email,First Name,Date of Service,URL\n"
    );
}

#[test]
fn malformed_row_fails_batch() {
    let text = "Email,First Name,Date of Service\na@x.com,Alice,2023-01-01\nb@y.org,Bob\n";
    assert_eq!(
        run_batch(text.as_bytes(), KEY, "https://example.com/?id={encrypted}"),
        Err(BatchError::Parse { row: Some(1) })
    );
}

#[test]
fn batch_with_wrong_key_fails() {
    let text = "Email,First Name,Date of Service\na@x.com,Alice,2023-01-01\n";
    assert_eq!(
        run_batch(text.as_bytes(), b"biFo9shi", "{encrypted}"),
        Err(BatchError::KeyLength { row: 0 })
    );
}
