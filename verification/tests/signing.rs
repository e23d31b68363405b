use aws_rds_signer::presign::sign_query;
use aws_rds_signer::{Credentials, Error, QueryParam, Signer};
use hmac::{Hmac, Mac};
use sha2::{Digest, Sha256};
use url::Url;

const SECRET: &str = "wJalrXUtnFEMI/K7MDENG+bPxRfiCYEXAMPLEKEY";
// 2024-01-15T10:00:00Z
const NOW: u64 = 1_705_312_800;

fn credentials() -> Credentials {
    Credentials::new("AKIDEXAMPLE", SECRET, None)
}

fn temporary_credentials() -> Credentials {
    Credentials::new("ASIAEXAMPLE", SECRET, Some("IQoJb3JpZ2luX2VjEA//token+with/odd=chars=="))
}

fn scenario_signer() -> Signer {
    Signer::builder()
        .host("mydb.cluster.us-east-1.rds.amazonaws.com")
        .port(5432)
        .user("appuser")
        .region("us-east-1")
        .expires_in(900)
        .build()
}

fn names(params: &[QueryParam]) -> Vec<String> {
    params.iter().map(|p| p.name.clone()).collect()
}

fn is_lower_hex(text: &str) -> bool {
    text.bytes().all(|b| b.is_ascii_digit() || (b'a'..=b'f').contains(&b))
}

fn hex(bytes: &[u8]) -> String {
    bytes.iter().map(|b| format!("{:02x}", b)).collect()
}

fn hmac_sha256(key: &[u8], message: &[u8]) -> Vec<u8> {
    let mut mac = Hmac::<Sha256>::new_from_slice(key).unwrap();
    mac.update(message);
    mac.finalize().into_bytes().to_vec()
}

fn uri_encode(text: &str) -> String {
    let mut out = String::new();
    for b in text.bytes() {
        if b.is_ascii_alphanumeric() || b == b'-' || b == b'_' || b == b'.' || b == b'~' {
            out.push(b as char);
        } else {
            out.push_str(&format!("%{:02X}", b));
        }
    }
    out
}

/// Recomputes the signature of a token from its own query and the secret.
fn recomputed_signature(token: &str, secret: &str, authority: &str) -> (String, String) {
    let url = Url::parse(&format!("https://{}", token)).unwrap();
    let mut claimed = String::new();
    let mut date_time = String::new();
    let mut credential = String::new();
    let mut pairs: Vec<(String, String)> = Vec::new();
    for (name, value) in url.query_pairs() {
        if name == "X-Amz-Signature" {
            claimed = value.to_string();
            continue;
        }
        if name == "X-Amz-Date" {
            date_time = value.to_string();
        }
        if name == "X-Amz-Credential" {
            credential = value.to_string();
        }
        pairs.push((uri_encode(&name), uri_encode(&value)));
    }
    pairs.sort();
    let query: Vec<String> = pairs.iter().map(|(k, v)| format!("{}={}", k, v)).collect();
    let canonical = format!(
        "GET\n/\n{}\nhost:{}\n\nhost\n{}",
        query.join("&"),
        authority,
        hex(&Sha256::digest(b""))
    );
    let scope: Vec<&str> = credential.splitn(2, '/').collect();
    let parts: Vec<&str> = scope[1].split('/').collect();
    let to_sign = format!(
        "AWS4-HMAC-SHA256\n{}\n{}\n{}",
        date_time,
        scope[1],
        hex(&Sha256::digest(canonical.as_bytes()))
    );
    let k_date = hmac_sha256(format!("AWS4{}", secret).as_bytes(), parts[0].as_bytes());
    let k_region = hmac_sha256(&k_date, parts[1].as_bytes());
    let k_service = hmac_sha256(&k_region, parts[2].as_bytes());
    let k_signing = hmac_sha256(&k_service, parts[3].as_bytes());
    (claimed, hex(&hmac_sha256(&k_signing, to_sign.as_bytes())))
}

#[test]
fn scenario_token_has_the_documented_shape() {
    let token = scenario_signer().fetch_token(&credentials(), None, NOW).unwrap();
    let prefix = "mydb.cluster.us-east-1.rds.amazonaws.com:5432/?Action=connect&DBUser=appuser\
                  &X-Amz-Algorithm=AWS4-HMAC-SHA256\
                  &X-Amz-Credential=AKIDEXAMPLE%2F20240115%2Fus-east-1%2Frds-db%2Faws4_request\
                  &X-Amz-Date=20240115T100000Z\
                  &X-Amz-Expires=900\
                  &X-Amz-SignedHeaders=host\
                  &X-Amz-Signature=";
    assert!(token.starts_with(prefix), "{}", token);
    let signature = &token[prefix.len()..];
    assert_eq!(signature.len(), 64);
    assert!(is_lower_hex(signature));
}

#[test]
fn signing_parameters_come_in_the_documented_order() {
    let params = scenario_signer().sign_request(&credentials(), None, NOW).unwrap();
    assert_eq!(
        names(&params),
        ["X-Amz-Algorithm", "X-Amz-Credential", "X-Amz-Date", "X-Amz-Expires", "X-Amz-SignedHeaders", "X-Amz-Signature"]
    );
    assert_eq!(params[0].value, "AWS4-HMAC-SHA256");
    assert_eq!(params[1].value, "AKIDEXAMPLE/20240115/us-east-1/rds-db/aws4_request");
    assert_eq!(params[2].value, "20240115T100000Z");
    assert_eq!(params[3].value, "900");
    assert_eq!(params[4].value, "host");
    assert_eq!(params[5].value.len(), 64);
    assert!(is_lower_hex(&params[5].value));
}

#[test]
fn session_token_is_the_seventh_parameter() {
    let params = scenario_signer().sign_request(&temporary_credentials(), None, NOW).unwrap();
    assert_eq!(params.len(), 7);
    assert_eq!(params[6].name, "X-Amz-Security-Token");
    assert_eq!(params[6].value, "IQoJb3JpZ2luX2VjEA//token+with/odd=chars==");
    assert_eq!(params[1].value, "ASIAEXAMPLE/20240115/us-east-1/rds-db/aws4_request");
    let token = scenario_signer().fetch_token(&temporary_credentials(), None, NOW).unwrap();
    assert!(token.ends_with("&X-Amz-Security-Token=IQoJb3JpZ2luX2VjEA%2F%2Ftoken%2Bwith%2Fodd%3Dchars%3D%3D"));
}

#[test]
fn credential_date_is_the_date_of_the_time_stamp() {
    // 1970-01-01, a leap day, and the last second that can be signed.
    for (now, stamp) in [
        (0u64, "19700101T000000Z"),
        (951_827_696, "20000229T123456Z"),
        (253_402_300_799, "99991231T235959Z"),
    ] {
        let params = scenario_signer().sign_request(&credentials(), None, now).unwrap();
        assert_eq!(params[2].value, stamp);
        assert_eq!(params[1].value, format!("AKIDEXAMPLE/{}/us-east-1/rds-db/aws4_request", &stamp[..8]));
    }
}

#[test]
fn same_inputs_give_the_same_token() {
    let first = scenario_signer().fetch_token(&temporary_credentials(), Some("eu-west-1"), NOW).unwrap();
    let second = scenario_signer().fetch_token(&temporary_credentials(), Some("eu-west-1"), NOW).unwrap();
    assert_eq!(first, second);
}

#[test]
fn another_time_gives_another_signature() {
    let first = scenario_signer().sign_request(&credentials(), None, NOW).unwrap();
    let second = scenario_signer().sign_request(&credentials(), None, NOW + 1).unwrap();
    assert_ne!(first[5].value, second[5].value);
    assert_eq!(second[2].value, "20240115T100001Z");
}

#[test]
fn signature_is_what_an_independent_verifier_computes() {
    let token = scenario_signer().fetch_token(&credentials(), None, NOW).unwrap();
    let (claimed, computed) =
        recomputed_signature(&token, SECRET, "mydb.cluster.us-east-1.rds.amazonaws.com:5432");
    assert_eq!(claimed.len(), 64);
    assert_eq!(claimed, computed);
}

#[test]
fn signature_with_session_token_is_what_an_independent_verifier_computes() {
    let signer = Signer::builder().host("db.example.com").port(3306).user("jane_doe").region("eu-central-1").expires_in(60).build();
    let token = signer.fetch_token(&temporary_credentials(), None, 951_827_696).unwrap();
    let (claimed, computed) = recomputed_signature(&token, SECRET, "db.example.com:3306");
    assert_eq!(claimed, computed);
}

#[test]
fn signature_depends_on_the_secret() {
    let other = Credentials::new("AKIDEXAMPLE", "another secret", None);
    let first = scenario_signer().sign_request(&credentials(), None, NOW).unwrap();
    let second = scenario_signer().sign_request(&other, None, NOW).unwrap();
    assert_ne!(first[5].value, second[5].value);
    for i in 0..5 {
        assert_eq!(first[i].value, second[i].value);
    }
}

#[test]
fn secret_is_not_in_the_token() {
    let token = scenario_signer().fetch_token(&credentials(), None, NOW).unwrap();
    assert!(!token.contains(SECRET));
    assert!(!token.contains("wJalrXUtnFEMI"));
}

#[test]
fn expiry_is_the_validity_in_seconds() {
    for (seconds, text) in [(900u64, "900"), (3600, "3600"), (1, "1"), (0, "0"), (u64::MAX, "18446744073709551615")] {
        let signer = Signer::builder().host("db.example.com").expires_in(seconds).build();
        let params = signer.sign_request(&credentials(), None, NOW).unwrap();
        assert_eq!(params[3].name, "X-Amz-Expires");
        assert_eq!(params[3].value, text);
        let token = signer.fetch_token(&credentials(), None, NOW).unwrap();
        assert!(token.contains(&format!("&X-Amz-Expires={}&", text)));
    }
}

#[test]
fn validity_changes_expiry_and_signature_only() {
    let short = Signer::builder().host("db.example.com").region("us-east-1").expires_in(900).build();
    let long = Signer::builder().host("db.example.com").region("us-east-1").expires_in(3600).build();
    let first = short.sign_request(&temporary_credentials(), None, NOW).unwrap();
    let second = long.sign_request(&temporary_credentials(), None, NOW).unwrap();
    assert_eq!(names(&first), names(&second));
    for i in [0usize, 1, 2, 4, 6] {
        assert_eq!(first[i].value, second[i].value);
    }
    assert_eq!(first[3].value, "900");
    assert_eq!(second[3].value, "3600");
    assert_ne!(first[5].value, second[5].value);
}

#[test]
fn default_validity_is_fifteen_minutes() {
    let params = Signer::builder().build().sign_request(&credentials(), None, NOW).unwrap();
    assert_eq!(params[3].value, "900");
}

#[test]
fn token_never_begins_with_the_scheme_and_parses_back() {
    let token = scenario_signer().fetch_token(&temporary_credentials(), None, NOW).unwrap();
    assert!(!token.starts_with("https://"));
    let url = Url::parse(&format!("https://{}", token)).unwrap();
    assert_eq!(url.host_str(), Some("mydb.cluster.us-east-1.rds.amazonaws.com"));
    assert_eq!(url.port(), Some(5432));
    assert_eq!(url.path(), "/");
    let pairs: Vec<(String, String)> = url.query_pairs().map(|(k, v)| (k.to_string(), v.to_string())).collect();
    let params = scenario_signer().sign_request(&temporary_credentials(), None, NOW).unwrap();
    assert_eq!(pairs.len(), 2 + params.len());
    assert_eq!(pairs[0], ("Action".to_string(), "connect".to_string()));
    assert_eq!(pairs[1], ("DBUser".to_string(), "appuser".to_string()));
    for (pair, param) in pairs[2..].iter().zip(params.iter()) {
        assert_eq!(pair.0, param.name);
        assert_eq!(pair.1, param.value);
    }
    assert_eq!(format!("https://{}", token), url.as_str());
}

#[test]
fn token_holds_each_parameter_once() {
    for (creds, count) in [(credentials(), 8usize), (temporary_credentials(), 9)] {
        let token = scenario_signer().fetch_token(&creds, None, NOW).unwrap();
        let query = token.split_once('?').unwrap().1;
        let found: Vec<&str> = query.split('&').map(|pair| pair.split_once('=').unwrap().0).collect();
        assert_eq!(found.len(), count);
        let mut expected = vec![
            "Action", "DBUser", "X-Amz-Algorithm", "X-Amz-Credential", "X-Amz-Date",
            "X-Amz-Expires", "X-Amz-SignedHeaders", "X-Amz-Signature",
        ];
        if count == 9 {
            expected.push("X-Amz-Security-Token");
        }
        assert_eq!(found, expected);
        assert!(query.starts_with("Action=connect&DBUser=appuser&"));
    }
}

#[test]
fn default_settings_sign_for_postgres_on_localhost() {
    let token = Signer::builder().build().fetch_token(&credentials(), None, NOW).unwrap();
    assert!(token.starts_with("localhost:5432/?Action=connect&DBUser=postgres&X-Amz-Algorithm=AWS4-HMAC-SHA256&"));
    assert!(token.contains("%2Fus-east-1%2Frds-db%2Faws4_request"));
    let same = Signer::default().fetch_token(&credentials(), None, NOW).unwrap();
    assert_eq!(token, same);
}

#[test]
fn each_setting_shows_in_the_token() {
    let token = Signer::builder()
        .user("analyst")
        .host("replica.example.org")
        .region("sa-east-1")
        .expires_in(42)
        .port(3306)
        .build()
        .fetch_token(&credentials(), Some("us-west-2"), NOW)
        .unwrap();
    assert!(token.starts_with("replica.example.org:3306/?Action=connect&DBUser=analyst&"));
    assert!(token.contains("&X-Amz-Credential=AKIDEXAMPLE%2F20240115%2Fsa-east-1%2Frds-db%2Faws4_request&"));
    assert!(token.contains("&X-Amz-Expires=42&"));
}

#[test]
fn later_setting_replaces_the_earlier() {
    let token = Signer::builder().host("first").host("second").port(1).port(2).build()
        .fetch_token(&credentials(), None, NOW)
        .unwrap();
    assert!(token.starts_with("second:2/?"));
}

#[test]
fn time_beyond_the_year_9999_is_a_signer_error() {
    match scenario_signer().fetch_token(&credentials(), None, 253_402_300_800) {
        Err(Error::SignerError(reason)) => assert_eq!(reason, "time is beyond the year 9999"),
        other => panic!("{:?}", other),
    }
    match scenario_signer().sign_request(&credentials(), None, u64::MAX) {
        Err(Error::SignerError(reason)) => assert_eq!(reason, "time is beyond the year 9999"),
        other => panic!("{:?}", other),
    }
}

fn weight(text: &str) -> usize {
    text.bytes()
        .map(|b| {
            if b.is_ascii_alphanumeric() || b"-_.~".contains(&b) {
                1
            } else if b == b'%' {
                7
            } else {
                3
            }
        })
        .sum()
}

#[test]
fn request_beyond_the_signable_size_is_a_signer_error() {
    let long = "a".repeat(65_300);
    match Signer::builder().user(&long).build().fetch_token(&credentials(), None, NOW) {
        Err(Error::SignerError(reason)) => assert_eq!(reason, "request too long to sign"),
        other => panic!("{:?}", other),
    }
    let token = Credentials::new("AKIDEXAMPLE", SECRET, Some(&long));
    match scenario_signer().fetch_token(&token, None, NOW) {
        Err(Error::SignerError(reason)) => assert_eq!(reason, "request too long to sign"),
        other => panic!("{:?}", other),
    }
    // A character that is escaped weighs three times, a `%` seven times.
    let escaped = Credentials::new(&"/".repeat(21_800), SECRET, None);
    match scenario_signer().fetch_token(&escaped, None, NOW) {
        Err(Error::SignerError(reason)) => assert_eq!(reason, "request too long to sign"),
        other => panic!("{:?}", other),
    }
    let percent = Credentials::new(&"%".repeat(9_400), SECRET, None);
    match scenario_signer().fetch_token(&percent, None, NOW) {
        Err(Error::SignerError(reason)) => assert_eq!(reason, "request too long to sign"),
        other => panic!("{:?}", other),
    }
}

#[test]
fn long_user_of_plain_letters_is_signed() {
    let user = "u".repeat(30_000);
    let signer = Signer::builder().host("db.example.com").user(&user).build();
    let token = signer.fetch_token(&credentials(), None, NOW).unwrap();
    assert!(token.starts_with(&format!("db.example.com:5432/?Action=connect&DBUser={}&X-Amz-Algorithm=", user)));
    let (claimed, computed) = recomputed_signature(&token, SECRET, "db.example.com:5432");
    assert_eq!(claimed, computed);
}

#[test]
fn largest_signable_request_is_signed() {
    let url = "https://db.example.com:5432/?Action=connect&DBUser=u";
    let key = "K".repeat(65_278 - weight(url) - weight("us-east-1") - weight("rds-db"));
    let creds = Credentials::new(&key, SECRET, None);
    let params = sign_query("GET", url, &creds, "us-east-1", "rds-db", NOW, 900).unwrap();
    assert_eq!(params[1].value, format!("{}/20240115/us-east-1/rds-db/aws4_request", key));
    let longer = Credentials::new(&format!("{}K", key), SECRET, None);
    match sign_query("GET", url, &longer, "us-east-1", "rds-db", NOW, 900) {
        Err(Error::SignerError(reason)) => assert_eq!(reason, "request too long to sign"),
        other => panic!("{:?}", other),
    }
}

#[test]
fn heaviest_queries_are_signed() {
    // Queries that grow the most when the signer decodes and escapes them
    // again, each as long as the weight allows.
    let creds = Credentials::new("", SECRET, Some(""));
    for piece in ["a", "%FF", "%ff", "%C3", "%41", "%", "%%", "%zz", "+", "=", "a&", "!&", "&", "a=b&", "é", "!", "%2", "%F", "a=&", "=&", "?", "/", ";", "a=%FF&b+=%&c"] {
        let front = "https://h/?";
        let count = (65_278 - weight(front)) / weight(piece);
        for spare in [0usize, 1, 2] {
            if count < spare {
                continue;
            }
            let url = format!("{}{}", front, piece.repeat(count - spare));
            if url.len() > 65_534 {
                continue;
            }
            let params = sign_query("GET", &url, &creds, "", "", 253_402_300_799, u64::MAX).unwrap();
            assert_eq!(params.len(), 7, "{}", piece);
            let path = format!("https://h/{}?{}", "p".repeat(100), piece.repeat((count - spare) * 9 / 10));
            if weight(&path) <= 65_278 && path.len() <= 65_534 {
                sign_query("GET", &path, &creds, "", "", NOW, 900).unwrap();
            }
        }
    }
}

#[test]
fn heaviest_credentials_are_signed() {
    let url = "https://h/";
    for piece in ["a", "/", "%", "é", " ", "~", "\u{0}", "日"] {
        let count = (65_278 - weight(url)) / weight(piece) / 3;
        let text = piece.repeat(count);
        let creds = Credentials::new(&text, SECRET, Some(&text));
        let region = piece.repeat((65_278 - weight(url) - 2 * weight(&text)) / weight(piece));
        let params = sign_query("GET", url, &creds, &region, "", NOW, 900).unwrap();
        assert_eq!(params[6].value, text);
        let over = format!("{}{}", region, piece);
        match sign_query("GET", url, &creds, &over, "", NOW, 900) {
            Err(Error::SignerError(reason)) => assert_eq!(reason, "request too long to sign"),
            other => panic!("{:?}", other.map(|p| p.len())),
        }
    }
}

#[test]
fn url_without_the_scheme_is_not_signed() {
    for url in ["/path?x=1", "http://db.example.com/", "db.example.com:5432", "", "*", "HTTPS://db/"] {
        match sign_query("GET", url, &credentials(), "us-east-1", "rds-db", NOW, 900) {
            Err(Error::ParseError(reason)) => assert_eq!(reason, "URL does not begin with https://"),
            other => panic!("{} {:?}", url, other),
        }
    }
}

#[test]
fn url_without_authority_is_a_parse_error() {
    for url in ["https://", "https:///path", "https://?x=1", "https://user@/"] {
        match sign_query("GET", url, &credentials(), "us-east-1", "rds-db", NOW, 900) {
            Err(Error::ParseError(reason)) => assert_eq!(reason, "failed to create canonical request"),
            other => panic!("{} {:?}", url, other),
        }
    }
}

#[test]
fn odd_authorities_are_signed() {
    for url in ["https://:5432/", "https://[::1]:5432/?Action=connect", "https://user:pw@db/", "https://db", "https://a@b@c/"] {
        let params = sign_query("GET", url, &credentials(), "us-east-1", "rds-db", NOW, 900).unwrap();
        assert_eq!(params.len(), 6);
    }
}

#[test]
fn host_that_is_no_authority_is_a_parse_error() {
    for host in ["my db", "db\u{7f}", "a:b:c", "db<1>", "日本"] {
        match Signer::builder().host(host).build().fetch_token(&credentials(), None, NOW) {
            Err(Error::ParseError(reason)) => assert_eq!(reason, "failed to create canonical request"),
            other => panic!("{} {:?}", host, other),
        }
    }
}

#[test]
fn user_is_escaped_in_the_token() {
    for (user, escaped) in [
        ("jane doe", "jane%20doe"),
        ("a&b=c", "a%26b%3Dc"),
        ("x&X-Amz-Expires=1", "x%26X-Amz-Expires%3D1"),
        ("u#frag", "u%23frag"),
        ("zoë", "zo%C3%AB"),
        ("", ""),
    ] {
        let signer = Signer::builder().host("db.example.com").user(user).build();
        let token = signer.fetch_token(&credentials(), None, NOW).unwrap();
        assert!(token.starts_with(&format!("db.example.com:5432/?Action=connect&DBUser={}&X-Amz-Algorithm=", escaped)), "{}", token);
        let url = Url::parse(&format!("https://{}", token)).unwrap();
        let pairs: Vec<(String, String)> = url.query_pairs().map(|(k, v)| (k.to_string(), v.to_string())).collect();
        assert_eq!(pairs.len(), 8);
        assert_eq!(pairs[0], ("Action".to_string(), "connect".to_string()));
        assert_eq!(pairs[1], ("DBUser".to_string(), user.to_string()));
        assert_eq!(pairs.iter().filter(|p| p.0 == "X-Amz-Expires").count(), 1);
        let (claimed, computed) = recomputed_signature(&token, SECRET, "db.example.com:5432");
        assert_eq!(claimed, computed);
    }
}

#[test]
fn user_cannot_pass_for_host_port_or_parameter() {
    let first = Signer::builder().host("h").port(1).user("x:5/?Action=connect&DBUser=y").build();
    let one = first.fetch_token(&credentials(), None, NOW).unwrap();
    assert!(one.starts_with("h:1/?Action=connect&DBUser=x%3A5%2F%3FAction%3Dconnect%26DBUser%3Dy&X-Amz-Algorithm="));
    // The host that would spell the same URL is refused.
    let second = Signer::builder().host("h:1/?Action=connect&DBUser=x").port(5).user("y").build();
    match second.fetch_token(&credentials(), None, NOW) {
        Err(Error::ParseError(reason)) => assert_eq!(reason, "host holds a character that ends the authority"),
        other => panic!("{:?}", other),
    }
}

#[test]
fn host_that_ends_the_authority_is_a_parse_error() {
    for host in ["h/p", "h?q", "h#f", "/", "?", "#", "db.example.com/", "h/?X-Amz-Expires=1&x=", "é#", "h/#x"] {
        let signer = Signer::builder().host(host).build();
        match signer.fetch_token(&credentials(), None, u64::MAX) {
            Err(Error::ParseError(reason)) => assert_eq!(reason, "host holds a character that ends the authority", "{}", host),
            other => panic!("{} {:?}", host, other),
        }
        match signer.sign_request(&credentials(), None, NOW) {
            Err(Error::ParseError(reason)) => assert_eq!(reason, "host holds a character that ends the authority", "{}", host),
            other => panic!("{} {:?}", host, other.map(|p| p.len())),
        }
    }
}

#[test]
fn query_of_the_token_holds_each_parameter_once_for_any_user() {
    for user in ["appuser", "a&b=c", "x&Action=drop", "?#/", "", "DBUser=root&DBUser=me"] {
        for creds in [credentials(), temporary_credentials()] {
            let signer = Signer::builder().host("db.example.com").user(user).build();
            let token = signer.fetch_token(&creds, None, NOW).unwrap();
            let query = token.split_once('?').unwrap().1;
            let names: Vec<&str> = query.split('&').map(|pair| pair.split_once('=').unwrap().0).collect();
            let mut expected = vec![
                "Action", "DBUser", "X-Amz-Algorithm", "X-Amz-Credential", "X-Amz-Date",
                "X-Amz-Expires", "X-Amz-SignedHeaders", "X-Amz-Signature",
            ];
            if token.contains("X-Amz-Security-Token") {
                expected.push("X-Amz-Security-Token");
            }
            assert_eq!(names, expected, "{}", user);
        }
    }
}

#[test]
fn token_keeps_the_port_that_https_stands_for() {
    let signer = Signer::builder().host("db.example.com").port(443).user("appuser").build();
    let token = signer.fetch_token(&credentials(), None, NOW).unwrap();
    assert!(token.starts_with("db.example.com:443/?Action=connect&DBUser=appuser&X-Amz-Algorithm=AWS4-HMAC-SHA256&"));
    let url = Url::parse(&format!("https://{}", token)).unwrap();
    assert_eq!(url.host_str(), Some("db.example.com"));
    assert_eq!(url.port_or_known_default(), Some(443));
    assert_eq!(url.query_pairs().count(), 8);
    // The signer of requests leaves the default port out of the host header.
    let (claimed, computed) = recomputed_signature(&token, SECRET, "db.example.com");
    assert_eq!(claimed, computed);
}

#[test]
fn missing_source_of_credentials_is_a_signer_error() {
    match scenario_signer().fetch_token_for(None, None, NOW) {
        Err(Error::SignerError(reason)) => assert_eq!(reason, "no credentials provider found"),
        other => panic!("{:?}", other),
    }
}

#[test]
fn failed_source_of_credentials_is_a_signer_error() {
    match scenario_signer().fetch_token_for(Some(Err("the credential provider was not enabled".to_string())), None, NOW) {
        Err(Error::SignerError(reason)) => assert_eq!(reason, "the credential provider was not enabled"),
        other => panic!("{:?}", other),
    }
}

#[test]
fn provided_credentials_give_the_token() {
    let token = scenario_signer().fetch_token_for(Some(Ok(temporary_credentials())), Some("eu-west-1"), NOW).unwrap();
    assert_eq!(token, scenario_signer().fetch_token(&temporary_credentials(), Some("eu-west-1"), NOW).unwrap());
}

#[test]
fn url_beyond_the_length_of_a_uri_is_a_parse_error() {
    let url = format!("https://db.example.com/?x={}", "a".repeat(65_535));
    match sign_query("GET", &url, &credentials(), "us-east-1", "rds-db", NOW, 900) {
        Err(Error::ParseError(reason)) => assert_eq!(reason, "failed to create canonical request"),
        other => panic!("{:?}", other),
    }
}

#[test]
fn empty_host_is_a_parse_error() {
    match Signer::builder().host("").build().fetch_token(&credentials(), None, NOW) {
        Err(Error::ParseError(reason)) => assert_eq!(reason, "empty host"),
        other => panic!("{:?}", other),
    }
}

#[test]
fn request_is_refused_before_the_url_is_parsed() {
    // Neither the signer of requests nor the URL parser accepts this URL; the
    // first is asked first.
    match Signer::builder().host("my db").build().fetch_token(&credentials(), None, NOW) {
        Err(Error::ParseError(reason)) => assert_eq!(reason, "failed to create canonical request"),
        other => panic!("{:?}", other),
    }
}

#[test]
fn refused_url_comes_before_time_and_size() {
    let long = "a".repeat(30_000);
    let creds = Credentials::new(&long, SECRET, None);
    match Signer::builder().host("my db").build().fetch_token(&creds, None, u64::MAX) {
        Err(Error::ParseError(reason)) => assert_eq!(reason, "failed to create canonical request"),
        other => panic!("{:?}", other),
    }
    match scenario_signer().fetch_token(&creds, None, u64::MAX) {
        Err(Error::SignerError(reason)) => assert_eq!(reason, "time is beyond the year 9999"),
        other => panic!("{:?}", other),
    }
}

#[test]
fn query_signing_serves_other_services_and_methods() {
    let creds = credentials();
    let params = sign_query("PUT", "https://example.amazonaws.com/a/b?x=1", &creds, "us-west-2", "s3", NOW, 60).unwrap();
    assert_eq!(params[1].value, "AKIDEXAMPLE/20240115/us-west-2/s3/aws4_request");
    assert_eq!(params[3].value, "60");
    let get = sign_query("GET", "https://example.amazonaws.com/a/b?x=1", &creds, "us-west-2", "s3", NOW, 60).unwrap();
    assert_ne!(params[5].value, get[5].value);
}

#[test]
fn test() {
    let signer = Signer::default();
    let token = signer.fetch_token(&credentials(), None, NOW).unwrap();
    println!("{}", token);
    assert!(token.len() > 0);
}
