//! Signing of a request whose signature travels in its query string.

use crate::credentials::{Credentials, CredentialsView};
use crate::text::{decimal, has_https_scheme, spend_weight, starts_with_https, text_weight};
use crate::{Error, ErrorView};
use aws_sigv4::http_request::{
    sign, SignableBody, SignableRequest, SignatureLocation, SigningInstructions, SigningSettings,
};
use aws_sigv4::sign::v4::SigningParams;
use std::iter::empty;
use std::time::{Duration, UNIX_EPOCH};
use vstd::prelude::*;

verus! {

/// A name and a value of a query string, both not yet escaped.
#[derive(Debug)]
pub struct QueryParam {
    pub name: String,
    pub value: String,
}

impl QueryParam {
    /// A parameter with the given name and value.
    pub fn new(name: &str, value: &str) -> (out: Self)
        ensures
            out@ == (name@, value@),
    {
        QueryParam { name: name.to_owned(), value: value.to_owned() }
    }
}

impl View for QueryParam {
    type V = (Seq<char>, Seq<char>);

    open spec fn view(&self) -> (Seq<char>, Seq<char>) {
        (self.name@, self.value@)
    }
}

/// The values of a list of parameters, in order.
pub open spec fn params_view(params: Seq<QueryParam>) -> Seq<(Seq<char>, Seq<char>)> {
    params.map_values(|p: QueryParam| p@)
}

/// The value of a text that may be absent.
pub open spec fn token_view(token: Option<String>) -> Option<Seq<char>> {
    match token {
        Some(token) => Some(token@),
        None => None,
    }
}

/// The signing instructions of `aws_sigv4`, held as they are.
#[verifier::external_type_specification]
#[verifier::external_body]
pub struct ExSigningInstructions(SigningInstructions);

/// The latest time that can be signed: the last second of the year 9999,
/// in seconds since 1970-01-01T00:00:00Z.
pub const MAX_EPOCH_SECONDS: u64 = 253_402_300_799;

/// The most that the variable parts of a request may weigh together: with
/// 256 bytes more for what signing adds, the canonical path and query then
/// fit in a URI of 65534 bytes.
pub const MAX_SIGNED_WEIGHT: usize = 65_278;

/// Whether a request is small enough to be signed: its URL, the access key
/// id, the session token, the region and the service weigh no more than
/// `MAX_SIGNED_WEIGHT` together.
pub open spec fn signable_size(
    url: Seq<char>,
    access_key_id: Seq<char>,
    session_token: Option<Seq<char>>,
    region: Seq<char>,
    service: Seq<char>,
) -> bool {
    text_weight(url) + text_weight(access_key_id) + text_weight(region) + text_weight(service)
        + match session_token {
        Some(token) => text_weight(token),
        None => 0,
    } <= MAX_SIGNED_WEIGHT
}

/// What signing returns for a request without headers and with an empty
/// body, the signature placed in the query: the parameters that carry the
/// signature, in the order in which they are to be appended to the request's
/// query, or the text of the failure. It is a function of the request, the
/// credentials, region and service, the time in seconds since the epoch and
/// the validity in seconds.
pub uninterp spec fn presigned_query(
    method: Seq<char>,
    url: Seq<char>,
    access_key_id: Seq<char>,
    secret_access_key: Seq<char>,
    session_token: Option<Seq<char>>,
    region: Seq<char>,
    service: Seq<char>,
    time: u64,
    expires_in: u64,
) -> Result<Seq<(Seq<char>, Seq<char>)>, Seq<char>>;

/// The time stamp that the signer writes for a time given in seconds since
/// 1970-01-01T00:00:00Z: year, month, day, `T`, hour, minute, second and `Z`
/// of that time in UTC, all in digits. It is a function of the time alone.
pub uninterp spec fn amz_date(time: u64) -> Seq<char>;

/// Whether a text has the form of a time stamp: eight digits, `T`, six
/// digits and `Z`.
pub open spec fn is_time_stamp(text: Seq<char>) -> bool {
    &&& text.len() == 16
    &&& text[8] == 'T'
    &&& text[15] == 'Z'
    &&& forall|i: int| 0 <= i < 15 && i != 8 ==> '0' <= #[trigger] text[i] <= '9'
}

/// Whether a character is a digit or one of the letters `a` to `f`.
pub open spec fn is_lower_hex(c: char) -> bool {
    ('0' <= c <= '9') || ('a' <= c <= 'f')
}

/// The shape of the parameters that carry a signature: algorithm, credential
/// with its scope, time stamp, validity, signed headers and signature and,
/// with temporary credentials, the session token. The time stamp has the
/// form of one, the date in the scope is that of the time stamp, and the
/// signature is 64 hexadecimal digits in lower case.
pub open spec fn signature_params(
    params: Seq<(Seq<char>, Seq<char>)>,
    access_key_id: Seq<char>,
    session_token: Option<Seq<char>>,
    region: Seq<char>,
    service: Seq<char>,
    time: u64,
    expires_in: u64,
) -> bool {
    &&& params.len() == if session_token is Some { 7int } else { 6int }
    &&& params[0] == ("X-Amz-Algorithm"@, "AWS4-HMAC-SHA256"@)
    &&& params[1] == ("X-Amz-Credential"@, credential(access_key_id, amz_date(time).take(8), region, service))
    &&& params[2] == ("X-Amz-Date"@, amz_date(time))
    &&& is_time_stamp(amz_date(time))
    &&& params[3] == ("X-Amz-Expires"@, decimal(expires_in as nat))
    &&& params[4] == ("X-Amz-SignedHeaders"@, "host"@)
    &&& params[5].0 == "X-Amz-Signature"@
    &&& params[5].1.len() == 64
    &&& forall|i: int| 0 <= i < 64 ==> is_lower_hex(#[trigger] params[5].1[i])
    &&& session_token matches Some(token) ==> params[6] == ("X-Amz-Security-Token"@, token)
}

/// The credential of a signed request: the access key id followed by the
/// scope of the signature, which is made of date, region and service.
pub open spec fn credential(
    access_key_id: Seq<char>,
    date: Seq<char>,
    region: Seq<char>,
    service: Seq<char>,
) -> Seq<char> {
    access_key_id + "/"@ + date + "/"@ + region + "/"@ + service + "/aws4_request"@
}

/// The parameters that a set of signing instructions adds to a request's
/// query, in order.
pub uninterp spec fn instruction_params(instructions: SigningInstructions) -> Seq<
    (Seq<char>, Seq<char>),
>;

/// Why a request without headers or body is refused before it is signed:
/// the text of the failure, or `None` for a request that is accepted.
pub uninterp spec fn request_refusal(method: Seq<char>, url: Seq<char>) -> Option<Seq<char>>;

/// Calls `SignableRequest::new` for a request without headers or body and
/// keeps the failure only.
///
/// Believed of it: the outcome is `request_refusal` of the method and the
/// URL; `None` where a request was made, else the text of the error.
#[verifier::external_body]
fn refusal(method: &str, url: &str) -> (out: Option<String>)
    ensures
        token_view(out) == request_refusal(method@, url@),
{
    SignableRequest::new(method, url, empty(), SignableBody::empty()).err().map(|e| e.to_string())
}

/// Calls `aws_sigv4::http_request::sign` on a request without headers or
/// body, with the signature placed in the query.
///
/// Believed of it: the outcome is `presigned_query` of the arguments; on
/// success the instructions hold, in this order, `X-Amz-Algorithm`,
/// `X-Amz-Credential`, `X-Amz-Date`, `X-Amz-Expires`, `X-Amz-SignedHeaders`,
/// `X-Amz-Signature` and, if there is a session token, `X-Amz-Security-Token`,
/// with the values that `signature_params` gives: the time stamp is
/// `amz_date` of the time, and the signature is the hexadecimal form of a tag
/// of 32 bytes. The request is signed with query placement, without headers
/// and with an empty body. The preconditions see to it that the URL has an
/// authority once it parses, and keep the time within the years the signer
/// can format and the canonical path and query within the length of a URI it
/// can hold. For the last, each byte of the URL is taken at the most it can
/// come to when the signer decodes the query and escapes it again: one byte
/// for an unreserved byte; nine for a `%` with the two bytes after it, where
/// they decode to a byte that is not UTF-8; three for any other byte, which
/// also covers the `=` that a pair without one is given. What signing adds
/// beyond the credentials, region and service is less than 256 bytes.
#[verifier::external_body]
fn presign(
    method: &str,
    url: &str,
    access_key_id: &str,
    secret_access_key: &str,
    session_token: Option<String>,
    region: &str,
    service: &str,
    time: u64,
    expires_in: u64,
) -> (out: Result<SigningInstructions, String>)
    requires
        has_https_scheme(url@),
        time <= MAX_EPOCH_SECONDS,
        signable_size(url@, access_key_id@, token_view(session_token), region@, service@),
    ensures
        match out {
            Ok(instructions) => {
                &&& presigned_query(
                    method@,
                    url@,
                    access_key_id@,
                    secret_access_key@,
                    token_view(session_token),
                    region@,
                    service@,
                    time,
                    expires_in,
                ) == Ok::<Seq<(Seq<char>, Seq<char>)>, Seq<char>>(instruction_params(instructions))
                &&& instruction_params(instructions)[2].1 == amz_date(time)
                &&& signature_params(
                    instruction_params(instructions),
                    access_key_id@,
                    token_view(session_token),
                    region@,
                    service@,
                    time,
                    expires_in,
                )
            },
            Err(reason) => presigned_query(
                method@,
                url@,
                access_key_id@,
                secret_access_key@,
                token_view(session_token),
                region@,
                service@,
                time,
                expires_in,
            ) == Err::<Seq<(Seq<char>, Seq<char>)>, Seq<char>>(reason@),
        },
{
    let identity = aws_credential_types::Credentials::new(
        access_key_id, secret_access_key, session_token, None, "caller").into();
    let mut settings = SigningSettings::default();
    settings.expires_in = Some(Duration::from_secs(expires_in));
    settings.signature_location = SignatureLocation::QueryParams;
    let params = SigningParams::builder().identity(&identity).region(region).name(service)
        .time(UNIX_EPOCH + Duration::from_secs(time)).settings(settings).build()
        .map_err(|e| e.to_string())?.into();
    let request = SignableRequest::new(method, url, empty(), SignableBody::empty())
        .map_err(|e| e.to_string())?;
    let signed = sign(request, &params).map_err(|e| e.to_string())?;
    Ok(signed.into_parts().0)
}

/// Calls `SigningInstructions::params` and copies each pair it hands out.
///
/// Believed of it: the pairs are those that the instructions hold.
#[verifier::external_body]
fn params_of(instructions: &SigningInstructions) -> (out: Vec<QueryParam>)
    ensures
        params_view(out@) == instruction_params(*instructions),
{
    instructions.params().iter().map(|(name, value)| QueryParam::new(name, value)).collect()
}

/// The parameters that carry a signature have names that differ from one
/// another and from `Action` and `DBUser`, the names that the request to
/// connect has already: appending them repeats no name.
pub proof fn lemma_signature_names_differ(
    params: Seq<(Seq<char>, Seq<char>)>,
    access_key_id: Seq<char>,
    session_token: Option<Seq<char>>,
    region: Seq<char>,
    service: Seq<char>,
    time: u64,
    expires_in: u64,
)
    requires
        signature_params(params, access_key_id, session_token, region, service, time, expires_in),
    ensures
        forall|i: int, j: int| 0 <= i < j < params.len() ==> params[i].0 != params[j].0,
        forall|i: int|
            0 <= i < params.len() ==> params[i].0 != "Action"@ && params[i].0 != "DBUser"@,
{
    reveal_strlit("X-Amz-Algorithm");
    reveal_strlit("X-Amz-Credential");
    reveal_strlit("X-Amz-Date");
    reveal_strlit("X-Amz-Expires");
    reveal_strlit("X-Amz-SignedHeaders");
    reveal_strlit("X-Amz-Signature");
    reveal_strlit("X-Amz-Security-Token");
    reveal_strlit("Action");
    reveal_strlit("DBUser");
    assert(params[0].0.len() == 15 && params[0].0[6] == 'A');
    assert(params[1].0.len() == 16);
    assert(params[2].0.len() == 10);
    assert(params[3].0.len() == 13);
    assert(params[4].0.len() == 19);
    assert(params[5].0.len() == 15 && params[5].0[6] == 'S');
    assert(params.len() == 7 ==> params[6].0.len() == 20);
    assert("Action"@.len() == 6 && "DBUser"@.len() == 6);
    assert forall|i: int, j: int| 0 <= i < j < params.len() implies params[i].0 != params[j].0 by {
        if i == 0 && j == 5 {
            assert(params[i].0[6] != params[j].0[6]);
        } else {
            assert(params[i].0.len() != params[j].0.len());
        }
    }
    assert forall|i: int| 0 <= i < params.len() implies params[i].0 != "Action"@ && params[i].0
        != "DBUser"@ by {
        assert(params[i].0.len() >= 10);
    }
}

/// Two signatures that differ in the validity alone, made at the same time,
/// differ in no parameter but the validity and the signature itself.
pub proof fn lemma_validity_touches_two_params(
    first: Seq<(Seq<char>, Seq<char>)>,
    second: Seq<(Seq<char>, Seq<char>)>,
    access_key_id: Seq<char>,
    session_token: Option<Seq<char>>,
    region: Seq<char>,
    service: Seq<char>,
    time: u64,
    first_expires_in: u64,
    second_expires_in: u64,
)
    requires
        signature_params(
            first,
            access_key_id,
            session_token,
            region,
            service,
            time,
            first_expires_in,
        ),
        signature_params(
            second,
            access_key_id,
            session_token,
            region,
            service,
            time,
            second_expires_in,
        ),
    ensures
        first.len() == second.len(),
        forall|i: int| 0 <= i < first.len() && i != 3 && i != 5 ==> first[i] == second[i],
        first[3] == ("X-Amz-Expires"@, decimal(first_expires_in as nat)),
        second[3] == ("X-Amz-Expires"@, decimal(second_expires_in as nat)),
        first[5].0 == second[5].0,
{
}

/// The mathematical value of an outcome that is a list of parameters or an
/// [`Error`].
pub open spec fn params_outcome(result: Result<Vec<QueryParam>, Error>) -> Result<
    Seq<(Seq<char>, Seq<char>)>,
    ErrorView,
> {
    match result {
        Ok(params) => Ok(params_view(params@)),
        Err(error) => Err(error@),
    }
}

/// The parameters that carry the signature of a request, or the failure.
/// A URL that does not begin with `https://` and a request that is refused
/// before it is signed are a `ParseError`. A time after `MAX_EPOCH_SECONDS`,
/// a request that is not of signable size and a failure to sign are a
/// `SignerError`, the last with the text of the failure.
pub open spec fn signed_query(
    method: Seq<char>,
    url: Seq<char>,
    credentials: CredentialsView,
    region: Seq<char>,
    service: Seq<char>,
    time: u64,
    expires_in: u64,
) -> Result<Seq<(Seq<char>, Seq<char>)>, ErrorView> {
    if !has_https_scheme(url) {
        Err(ErrorView::ParseError("URL does not begin with https://"@))
    } else if request_refusal(method, url) is Some {
        Err(ErrorView::ParseError(request_refusal(method, url)->Some_0))
    } else if time > MAX_EPOCH_SECONDS {
        Err(ErrorView::SignerError("time is beyond the year 9999"@))
    } else if !signable_size(
        url,
        credentials.access_key_id,
        credentials.session_token,
        region,
        service,
    ) {
        Err(ErrorView::SignerError("request too long to sign"@))
    } else {
        match presigned_query(
            method,
            url,
            credentials.access_key_id,
            credentials.secret_access_key,
            credentials.session_token,
            region,
            service,
            time,
            expires_in,
        ) {
            Ok(params) => Ok(params),
            Err(reason) => Err(ErrorView::SignerError(reason)),
        }
    }
}

/// Tells whether a request is of signable size.
fn fits(url: &str, credentials: &Credentials, region: &str, service: &str) -> (out: bool)
    ensures
        out == signable_size(
            url@,
            credentials@.access_key_id,
            credentials@.session_token,
            region@,
            service@,
        ),
{
    let left = match spend_weight(url, MAX_SIGNED_WEIGHT) {
        Some(left) => left,
        None => {
            return false;
        },
    };
    let left = match spend_weight(credentials.access_key_id(), left) {
        Some(left) => left,
        None => {
            return false;
        },
    };
    let left = match spend_weight(region, left) {
        Some(left) => left,
        None => {
            return false;
        },
    };
    let left = match spend_weight(service, left) {
        Some(left) => left,
        None => {
            return false;
        },
    };
    match credentials.session_token() {
        Some(token) => spend_weight(token, left).is_some(),
        None => true,
    }
}

/// Signs a request without headers or body for the given service and
/// region, valid for `expires_in` seconds from `time`, which is in seconds
/// since 1970-01-01T00:00:00Z. Returns the parameters that carry the
/// signature, in the order in which they are to be appended to the query of
/// the request.
///
/// Fails with `ParseError` if the URL does not begin with `https://` or is
/// refused as the URL of a request, and with `SignerError` if the time is
/// after `MAX_EPOCH_SECONDS`, if the request is not of signable size, or if
/// signing fails.
pub fn sign_query(
    method: &str,
    url: &str,
    credentials: &Credentials,
    region: &str,
    service: &str,
    time: u64,
    expires_in: u64,
) -> (out: Result<Vec<QueryParam>, Error>)
    ensures
        params_outcome(out) == signed_query(
            method@,
            url@,
            credentials@,
            region@,
            service@,
            time,
            expires_in,
        ),
        out matches Ok(params) ==> signature_params(
            params_view(params@),
            credentials@.access_key_id,
            credentials@.session_token,
            region@,
            service@,
            time,
            expires_in,
        ),
{
    if !starts_with_https(url) {
        return Err(Error::ParseError("URL does not begin with https://".to_owned()));
    }
    if let Some(reason) = refusal(method, url) {
        return Err(Error::ParseError(reason));
    }
    if time > MAX_EPOCH_SECONDS {
        return Err(Error::SignerError("time is beyond the year 9999".to_owned()));
    }
    if !fits(url, credentials, region, service) {
        return Err(Error::SignerError("request too long to sign".to_owned()));
    }
    let token = match credentials.session_token() {
        Some(token) => Some(token.to_owned()),
        None => None,
    };
    match presign(
        method,
        url,
        credentials.access_key_id(),
        credentials.secret_access_key(),
        token,
        region,
        service,
        time,
        expires_in,
    ) {
        Ok(instructions) => Ok(params_of(&instructions)),
        Err(reason) => Err(Error::SignerError(reason)),
    }
}

} // verus!
