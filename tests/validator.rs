use hmac::Mac;
use lingua_core::bytes::{parse_u64, bytes_less};
use lingua_core::middleware::{check_init_data, check_timestamp};
use lingua_core::error::ApiError;
use lingua_core::validator::{
    derive_secret_key, init_data_param, parse_init_data, signature_matches, validate_init_data, InitDataError,
};

const NOW: u64 = 1_700_000_000;

fn mac(key: &[u8], msg: &[u8]) -> Vec<u8> {
    let mut m = <hmac::Hmac<sha2::Sha256> as Mac>::new_from_slice(key).unwrap();
    m.update(msg);
    m.finalize().into_bytes().to_vec()
}

fn secret() -> Vec<u8> {
    mac(b"WebAppData", b"123456:TEST-TOKEN")
}

/// Signs the `key=value` pairs: sorted data-check string, hex HMAC.
fn sign(pairs: &[(&str, String)], key: &[u8]) -> String {
    let mut sorted: Vec<&(&str, String)> = pairs.iter().collect();
    sorted.sort_by(|a, b| a.0.cmp(b.0));
    let dcs = sorted
        .iter()
        .map(|(k, v)| format!("{}={}", k, v))
        .collect::<Vec<_>>()
        .join("\n");
    hex::encode(mac(key, dcs.as_bytes()))
}

fn payload(pairs: &[(&str, String)], hash: &str) -> String {
    let mut s = pairs
        .iter()
        .map(|(k, v)| format!("{}={}", k, v))
        .collect::<Vec<_>>()
        .join("&");
    s.push_str("&hash=");
    s.push_str(hash);
    s
}

fn signed_payload(user: &str, auth_date: u64) -> String {
    let pairs = vec![("user", user.to_string()), ("auth_date", auth_date.to_string())];
    let h = sign(&pairs, &secret());
    payload(&pairs, &h)
}

#[test]
fn derived_key_is_hmac_of_bot_token() {
    assert_eq!(derive_secret_key("123456:TEST-TOKEN"), secret());
    assert_ne!(derive_secret_key("123456:OTHER"), secret());
}

#[test]
fn signed_payload_is_accepted() {
    let p = signed_payload("{\"id\":1}", NOW);
    assert_eq!(validate_init_data(&p, &secret(), NOW), Ok(true));
}

#[test]
fn flipped_hash_nibble_is_refused() {
    let p = signed_payload("{\"id\":1}", NOW);
    let last = p.chars().last().unwrap();
    let flipped = if last == '0' { '1' } else { '0' };
    let mut q = p.clone();
    q.pop();
    q.push(flipped);
    assert_eq!(validate_init_data(&q, &secret(), NOW), Ok(false));
}

#[test]
fn changed_parameter_is_refused() {
    let p = signed_payload("{\"id\":1}", NOW);
    let q = p.replacen("id", "ie", 1);
    assert_eq!(validate_init_data(&q, &secret(), NOW), Ok(false));
}

#[test]
fn other_key_is_refused() {
    let p = signed_payload("{\"id\":1}", NOW);
    let other = mac(b"WebAppData", b"999:OTHER");
    assert_eq!(validate_init_data(&p, &other, NOW), Ok(false));
}

#[test]
fn parameters_are_sorted_and_last_duplicate_wins() {
    let pairs = vec![
        ("zeta", "1".to_string()),
        ("auth_date", NOW.to_string()),
        ("alpha", "2".to_string()),
    ];
    let h = sign(&pairs, &secret());
    let p = format!("zeta=0&{}", payload(&pairs, &h));
    let check = parse_init_data(p.as_bytes(), NOW).ok().unwrap();
    assert_eq!(
        String::from_utf8(check.data_check.clone()).unwrap(),
        format!("alpha=2\nauth_date={}\nzeta=1", NOW)
    );
    assert_eq!(check.auth_date, NOW);
    assert_eq!(validate_init_data(&p, &secret(), NOW), Ok(true));
}

#[test]
fn payload_of_exactly_max_length_is_checked() {
    let base = signed_payload("", NOW);
    let pad = 1024 - base.len() - "&pad=".len();
    let pairs = vec![
        ("user", String::new()),
        ("auth_date", NOW.to_string()),
        ("pad", "x".repeat(pad)),
    ];
    let h = sign(&pairs, &secret());
    let p = payload(&pairs, &h);
    assert_eq!(p.len(), 1024);
    assert_eq!(validate_init_data(&p, &secret(), NOW), Ok(true));
    let pairs = vec![
        ("user", String::new()),
        ("auth_date", NOW.to_string()),
        ("pad", "x".repeat(pad + 1)),
    ];
    let h = sign(&pairs, &secret());
    let p = payload(&pairs, &h);
    assert_eq!(p.len(), 1025);
    assert_eq!(validate_init_data(&p, &secret(), NOW), Err(InitDataError::TooLong));
}

#[test]
fn auth_date_window_boundary() {
    let p = signed_payload("u", NOW - 3600);
    assert_eq!(validate_init_data(&p, &secret(), NOW), Ok(true));
    let p = signed_payload("u", NOW - 3601);
    assert_eq!(validate_init_data(&p, &secret(), NOW), Err(InitDataError::Expired));
}

#[test]
fn each_refusal_has_its_error() {
    let key = secret();
    assert_eq!(
        validate_init_data("user=a\u{7}&hash=00", &key, NOW),
        Err(InitDataError::InvalidCharacters)
    );
    assert_eq!(
        validate_init_data("user=é&hash=00", &key, NOW),
        Err(InitDataError::InvalidCharacters)
    );
    assert_eq!(
        validate_init_data("user=a&auth_date=1", &key, NOW),
        Err(InitDataError::MissingHash)
    );
    assert_eq!(
        validate_init_data("user=a&hash=00", &key, NOW),
        Err(InitDataError::MissingAuthDate)
    );
    assert_eq!(
        validate_init_data("auth_date=12x&hash=00", &key, NOW),
        Err(InitDataError::InvalidAuthDate)
    );
    assert_eq!(InitDataError::Expired.message(), "auth_date expired");
    assert_eq!(InitDataError::TooLong.message(), "Input data too long");
}

#[test]
fn every_piece_must_be_one_pair() {
    let p = signed_payload("u", NOW);
    assert_eq!(validate_init_data(&p, &secret(), NOW), Ok(true));
    let bare = format!("{}&x", p);
    assert_eq!(validate_init_data(&bare, &secret(), NOW), Err(InitDataError::MalformedPair));
    let bare_y = format!("{}&y", p);
    assert_eq!(validate_init_data(&bare_y, &secret(), NOW), Err(InitDataError::MalformedPair));
    let double = format!("a=b=c&{}", p);
    assert_eq!(validate_init_data(&double, &secret(), NOW), Err(InitDataError::MalformedPair));
    let empty = format!("{}&", p);
    assert_eq!(validate_init_data(&empty, &secret(), NOW), Err(InitDataError::MalformedPair));
    assert_eq!(validate_init_data("", &secret(), NOW), Err(InitDataError::MalformedPair));
    assert_eq!(InitDataError::MalformedPair.message(), "Malformed key=value pair");
}

#[test]
fn replaced_hash_is_refused() {
    let p = signed_payload("u", NOW);
    let (body, h) = p.rsplit_once("&hash=").unwrap();
    let upper = format!("{}&hash={}", body, h.to_uppercase());
    assert_eq!(validate_init_data(&upper, &secret(), NOW), Ok(false));
    let short = format!("{}&hash={}", body, &h[1..]);
    assert_eq!(validate_init_data(&short, &secret(), NOW), Ok(false));
}

#[test]
fn signature_compares_lowercase_hex() {
    assert!(signature_matches(&[0xab, 0x01], b"ab01"));
    assert!(!signature_matches(&[0xab, 0x01], b"AB01"));
    assert!(!signature_matches(&[0xab, 0x01], b"ab0"));
}

#[test]
fn decimal_parsing_follows_std() {
    assert_eq!(parse_u64(b"0"), Some(0));
    assert_eq!(parse_u64(b"+42"), Some(42));
    assert_eq!(parse_u64(b"+"), None);
    assert_eq!(parse_u64(b""), None);
    assert_eq!(parse_u64(b"-1"), None);
    assert_eq!(parse_u64(b"18446744073709551615"), Some(u64::MAX));
    assert_eq!(parse_u64(b"18446744073709551616"), None);
}

#[test]
fn byte_order_is_lexicographic() {
    assert!(bytes_less(b"ab", b"b"));
    assert!(bytes_less(b"a", b"ab"));
    assert!(!bytes_less(b"ab", b"ab"));
    assert!(!bytes_less(b"b", b"ab"));
}

#[test]
fn timestamp_drift_boundary() {
    assert!(check_timestamp(false, Some(&(NOW - 30).to_string()), NOW).is_ok());
    assert!(check_timestamp(false, Some(&(NOW + 30).to_string()), NOW).is_ok());
    assert!(matches!(
        check_timestamp(false, Some(&(NOW - 31).to_string()), NOW),
        Err(ApiError::Forbidden)
    ));
    assert!(matches!(
        check_timestamp(false, Some(&(NOW + 31).to_string()), NOW),
        Err(ApiError::Forbidden)
    ));
}

#[test]
fn timestamp_header_must_be_present_and_numeric() {
    assert!(matches!(check_timestamp(false, None, NOW), Err(ApiError::BadRequest)));
    assert!(matches!(check_timestamp(false, Some("soon"), NOW), Err(ApiError::BadRequest)));
    assert!(check_timestamp(true, None, NOW).is_ok());
}

#[test]
fn init_data_header_is_decoded_then_checked() {
    let p = signed_payload("{\"id\":1}", NOW);
    let encoded = urlencoding::encode(&p).into_owned();
    assert_ne!(encoded, p);
    assert_eq!(check_init_data(Some(&encoded), &secret(), NOW).ok(), Some(p.clone()));
    let mut bad = p.clone();
    let last = bad.pop().unwrap();
    bad.push(if last == 'f' { 'e' } else { 'f' });
    assert!(matches!(check_init_data(Some(&bad), &secret(), NOW), Err(ApiError::Unauthorized)));
    assert!(matches!(check_init_data(None, &secret(), NOW), Err(ApiError::BadRequest)));
    assert!(matches!(check_init_data(Some("%FF"), &secret(), NOW), Err(ApiError::BadRequest)));
    assert!(matches!(check_init_data(Some("user=1"), &secret(), NOW), Err(ApiError::BadRequest)));
}

#[test]
fn init_data_header_scenario() {
    let key = secret();
    let decoded_user = "{\"id\":1}";
    let pairs = vec![("user", decoded_user.to_string()), ("auth_date", NOW.to_string())];
    let h = sign(&pairs, &key);
    let header = format!("user=%7B%22id%22%3A1%7D&auth_date={}&hash={}", NOW, h);
    let expected = format!("user={}&auth_date={}&hash={}", decoded_user, NOW, h);
    assert_eq!(check_init_data(Some(&header), &key, NOW).ok(), Some(expected));
    let mut flipped = header.clone();
    let last = flipped.pop().unwrap();
    flipped.push(if last == 'a' { 'b' } else { 'a' });
    let err = check_init_data(Some(&flipped), &key, NOW).err().unwrap();
    assert_eq!(err.status_code(), 401);
}

#[test]
fn init_data_parameter_lookup() {
    let p = "user={\"id\":1}&auth_date=5&user={\"id\":2}&hash=ab";
    assert_eq!(init_data_param(p, b"user"), Some(b"{\"id\":2}".to_vec()));
    assert_eq!(init_data_param(p, b"hash"), None);
    assert_eq!(init_data_param(p, b"missing"), None);
}
