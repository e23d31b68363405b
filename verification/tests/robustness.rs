use aws_rds_signer::address::assemble;
use aws_rds_signer::{Credentials, Error, QueryParam, Signer};
use url::Url;

const NOW: u64 = 1_705_312_800;

fn odd_texts() -> Vec<String> {
    let marks = ['a', 'Z', '0', '/', '?', '#', '@', ':', '[', ']', '%', '&', '=', '+', ' ', '.', '\\', 'é', '\u{0}', '\n'];
    let mut texts = vec![String::new()];
    for c in 0u8..128 {
        texts.push((c as char).to_string());
        texts.push(format!("db{}", c as char));
        texts.push(format!("{}db", c as char));
    }
    for a in marks {
        for b in marks {
            texts.push(format!("{}{}", a, b));
            for c in marks {
                texts.push(format!("{}{}{}", a, b, c));
            }
        }
    }
    texts.extend(["%41", "%zz", "[::1]", "[::1", "::1]", "user:pw@host", "xn--nxasmq6b", "日本語", "a..b", "..", "/../..", "1.2.3.4", "0x7f.1", "256.256.256.256"].map(String::from));
    texts
}

fn check(outcome: Result<String, Error>, input: &str) {
    match outcome {
        Ok(token) => {
            assert!(!token.starts_with("https://"), "{:?}", input);
            let url = Url::parse(&format!("https://{}", token)).unwrap();
            assert_eq!(url.as_str(), format!("https://{}", token), "{:?}", input);
        }
        Err(Error::SignerError(_)) | Err(Error::ParseError(_)) => {}
        Err(other) => panic!("{:?} {:?}", input, other),
    }
}

#[test]
fn any_host_is_signed_or_refused() {
    let credentials = Credentials::new("AKIDEXAMPLE", "secret", Some("token"));
    for host in odd_texts() {
        check(Signer::builder().host(&host).build().fetch_token(&credentials, None, NOW), &host);
    }
}

#[test]
fn any_user_is_signed_and_read_back() {
    let credentials = Credentials::new("AKIDEXAMPLE", "secret", None);
    for user in odd_texts() {
        let token = Signer::builder().host("db.example.com").user(&user).build().fetch_token(&credentials, None, NOW).unwrap();
        assert!(token.starts_with("db.example.com:5432/?Action=connect&DBUser="), "{:?}", user);
        let url = Url::parse(&format!("https://{}", token)).unwrap();
        let pairs: Vec<(String, String)> = url.query_pairs().map(|(k, v)| (k.to_string(), v.to_string())).collect();
        assert_eq!(pairs.len(), 8, "{:?}", user);
        assert_eq!(pairs[1], ("DBUser".to_string(), user.clone()));
        check(Ok(token), &user);
    }
}

#[test]
fn any_region_and_credentials_are_signed() {
    let signer = Signer::builder().host("db.example.com").build();
    for text in odd_texts() {
        let credentials = Credentials::new(&text, &text, Some(&text));
        let params = signer.sign_request(&credentials, Some(&text), NOW).unwrap();
        assert_eq!(params.len(), 7);
        assert_eq!(params[1].value, format!("{}/20240115/{}/rds-db/aws4_request", text, text));
        assert_eq!(params[6].value, text);
        check(signer.fetch_token(&credentials, Some(&text), NOW), &text);
    }
}

#[test]
fn any_port_and_time_of_day_are_signed() {
    let credentials = Credentials::new("AKIDEXAMPLE", "secret", None);
    for port in [0u16, 1, 80, 443, 3306, 5432, 65535] {
        for now in [0u64, 59, 86_399, 86_400, 1_709_251_199, 4_102_444_800, 253_402_300_799] {
            let signer = Signer::builder().host("db.example.com").port(port).build();
            let token = signer.fetch_token(&credentials, None, now).unwrap();
            assert!(token.starts_with(&format!("db.example.com:{}/?Action=connect&DBUser=postgres&", port)));
        }
    }
}

fn form_encoded(text: &str) -> String {
    let mut out = String::new();
    for b in text.bytes() {
        if b.is_ascii_alphanumeric() || b"*-._".contains(&b) {
            out.push(b as char);
        } else if b == b' ' {
            out.push('+');
        } else {
            out.push_str(&format!("%{:02X}", b));
        }
    }
    out
}

/// The text of a URL after a pair has joined its query, worked out from the
/// text alone.
fn with_pair(url: &str, name: &str, value: &str) -> String {
    let cut = url.find('#').unwrap_or(url.len());
    let (front, back) = url.split_at(cut);
    let separator = match front.find('?') {
        None => "?",
        Some(mark) if mark == front.len() - 1 => "",
        Some(_) => "&",
    };
    format!("{}{}{}={}{}", front, separator, form_encoded(name), form_encoded(value), back)
}

#[test]
fn pairs_join_a_url_where_its_text_says() {
    let urls = [
        "https://db/", "https://db/?", "https://db/?a", "https://db/?a=b", "https://db/?a?", "https://db/??",
        "https://db/#", "https://db/#f", "https://db/?#", "https://db/?#?", "https://db/?a=b#f#g", "https://db/#?x",
        "https://db/p/q?x=1&y=2", "https://u:p@db:8443/p%3Fq?%23=%3F#a?b#c", "https://db?",  "https://db#f",
        "https://[::1]:5432/?Action=connect", "https://db/?a=b&", "https://db/?&", "https://xn--nxasmq6b/?é=日#本",
    ];
    let texts = ["", "a", "k", " ", "a b", "+", "*-._~", "é", "#", "?", "&", "=", "%41", "a/b:c", "日本", "\u{0}\n"];
    for url in urls {
        let parsed = Url::parse(url).unwrap();
        for name in texts {
            for value in texts {
                let expected = with_pair(parsed.as_str(), name, value);
                let token = assemble(url, &vec![QueryParam::new(name, value)]).unwrap();
                assert_eq!(format!("https://{}", token), expected, "{} {:?} {:?}", url, name, value);
                let twice = assemble(url, &vec![QueryParam::new(name, value), QueryParam::new(value, name)]).unwrap();
                assert_eq!(format!("https://{}", twice), with_pair(&expected, value, name));
            }
        }
    }
}
