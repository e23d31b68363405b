use aws_rds_signer::Error;

#[test]
fn error_text_names_the_kind() {
    assert_eq!(Error::ParseError("bad".to_string()).to_string(), "ParseError: bad");
    assert_eq!(Error::SignerError("no".to_string()).to_string(), "SignerError: no");
    assert_eq!(Error::EnvVarError("unset".to_string()).to_string(), "EnvVarError: unset");
}
