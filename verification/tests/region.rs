use aws_rds_signer::sign::resolve_region;
use aws_rds_signer::{Credentials, Signer};

fn credentials() -> Credentials {
    Credentials::new("AKIDEXAMPLE", "wJalrXUtnFEMI/K7MDENG+bPxRfiCYEXAMPLEKEY", None)
}

#[test]
fn region_that_is_set_wins() {
    assert_eq!(resolve_region(Some("eu-west-1"), Some("us-west-2")), "eu-west-1");
    assert_eq!(resolve_region(Some("eu-west-1"), None), "eu-west-1");
}

#[test]
fn ambient_region_is_used_when_none_is_set() {
    assert_eq!(resolve_region(None, Some("ap-south-1")), "ap-south-1");
}

#[test]
fn region_falls_back_to_us_east_1() {
    assert_eq!(resolve_region(None, None), "us-east-1");
}

#[test]
fn scope_embeds_the_fallback_region() {
    let signer = Signer::builder().host("db.example.com").build();
    let params = signer.sign_request(&credentials(), None, 1_705_312_800).unwrap();
    assert_eq!(params[1].name, "X-Amz-Credential");
    assert_eq!(params[1].value, "AKIDEXAMPLE/20240115/us-east-1/rds-db/aws4_request");
}

#[test]
fn scope_embeds_the_ambient_region_when_none_is_set() {
    let signer = Signer::builder().host("db.example.com").build();
    let params = signer.sign_request(&credentials(), Some("ap-south-1"), 1_705_312_800).unwrap();
    assert_eq!(params[1].value, "AKIDEXAMPLE/20240115/ap-south-1/rds-db/aws4_request");
}

#[test]
fn scope_embeds_the_region_that_is_set_whatever_the_ambient_one() {
    let signer = Signer::builder().host("db.example.com").region("eu-west-1").build();
    let expected = "AKIDEXAMPLE/20240115/eu-west-1/rds-db/aws4_request";
    let alone = signer.sign_request(&credentials(), None, 1_705_312_800).unwrap();
    let beside = signer.sign_request(&credentials(), Some("us-west-2"), 1_705_312_800).unwrap();
    assert_eq!(alone[1].value, expected);
    assert_eq!(beside[1].value, expected);
    let token = signer.fetch_token(&credentials(), Some("us-west-2"), 1_705_312_800).unwrap();
    assert!(token.contains("%2Feu-west-1%2Frds-db%2Faws4_request"));
    assert!(!token.contains("us-west-2"));
}
