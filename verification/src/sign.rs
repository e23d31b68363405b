//! The settings of a connection and the tokens made from them.

use crate::address::{
    assemble_connect, build_connect_url, connect_token, connect_url, joined, joined_pair,
    kept_by_parser, lemma_connect_url_has_plain_query, lemma_connect_url_has_scheme,
    lemma_params_join_plain_query, lemma_scheme_restores_url, parsed_url, portless_connect_url,
    with_query, HTTPS_PORT,
};
use crate::text::{
    decimal, ends_authority, first_index, form_encoded, has_https_scheme, holds_end_of_authority,
    is_form_safe_char, lemma_authority_has_no_end, lemma_decimal_begins_with_digit,
    lemma_decimal_is_digits, lemma_first_index, lemma_form_encoded_keeps, uri_component,
};
use crate::credentials::{Credentials, CredentialsView};
use crate::presign::{
    amz_date, credential, is_lower_hex, params_outcome, params_view, presigned_query,
    request_refusal, sign_query, signable_size, signature_params, signed_query, QueryParam,
    MAX_EPOCH_SECONDS,
};
use crate::{outcome, Error, ErrorView};
use vstd::prelude::*;

verus! {

/// The settings from which tokens are made: where the database is, who
/// connects to it, and for how long a token is valid.
#[derive(Debug)]
pub struct Signer {
    /// The validity of a token in seconds.
    expires_in: u64,
    /// The host name of the database instance.
    host: String,
    /// The port the database listens on.
    port: u16,
    /// The database user to connect as.
    user: String,
    /// The region of the database instance, if it is set.
    region: Option<String>,
}

/// The mathematical value of a [`Signer`].
pub struct SignerView {
    pub expires_in: u64,
    pub host: Seq<char>,
    pub port: u16,
    pub user: Seq<char>,
    pub region: Option<Seq<char>>,
}

/// The value of a text that may be absent.
pub open spec fn text_view(text: Option<&str>) -> Option<Seq<char>> {
    match text {
        Some(text) => Some(text@),
        None => None,
    }
}

/// The region that a request is signed for: the one that is set, else the
/// ambient one, else `us-east-1`.
pub open spec fn resolved_region(configured: Option<Seq<char>>, ambient: Option<Seq<char>>) -> Seq<
    char,
> {
    match configured {
        Some(region) => region,
        None => match ambient {
            Some(region) => region,
            None => "us-east-1"@,
        },
    }
}

/// Picks the region that a request is signed for.
pub fn resolve_region(configured: Option<&str>, ambient: Option<&str>) -> (out: String)
    ensures
        out@ == resolved_region(text_view(configured), text_view(ambient)),
{
    match configured {
        Some(region) => region.to_owned(),
        None => match ambient {
            Some(region) => region.to_owned(),
            None => "us-east-1".to_owned(),
        },
    }
}

impl SignerView {
    /// The settings before any is changed: a token is valid for 900 seconds,
    /// the database is PostgreSQL on this machine, and no region is set.
    pub open spec fn initial() -> SignerView {
        SignerView {
            expires_in: 900,
            host: "localhost"@,
            port: 5432,
            user: "postgres"@,
            region: None,
        }
    }

    /// The URL of the request that a token is made of.
    pub open spec fn url(self) -> Seq<char> {
        connect_url(self.host, self.port, self.user)
    }

    /// The parameters that carry the signature of the request, or the
    /// failure to sign it: a `GET` of the URL, signed for the service
    /// `rds-db` in the resolved region. A host that holds `/`, `?` or `#`
    /// is no part of an authority and is refused with a `ParseError`.
    pub open spec fn signature(
        self,
        credentials: CredentialsView,
        ambient_region: Option<Seq<char>>,
        now: u64,
    ) -> Result<Seq<(Seq<char>, Seq<char>)>, ErrorView> {
        if ends_authority(self.host) {
            Err(ErrorView::ParseError("host holds a character that ends the authority"@))
        } else {
            signed_query(
                "GET"@,
                self.url(),
                credentials,
                resolved_region(self.region, ambient_region),
                "rds-db"@,
                now,
                self.expires_in,
            )
        }
    }

    /// Whether the URL of the request goes into a token as it was built:
    /// the parser keeps the URL, or leaves out no more than the port that
    /// `https` stands for.
    pub open spec fn kept_as_built(self) -> bool {
        &&& parsed_url(self.url()) matches Ok(parsed)
        &&& kept_by_parser(parsed, self.host, self.port, self.user)
    }

    /// A token spelled out: host, colon, port, the path `/`, the action, the
    /// database user as a component of a URI, and the parameters of the
    /// signature as [`signature_text`] has them.
    pub open spec fn spelled_token(
        self,
        params: Seq<(Seq<char>, Seq<char>)>,
        session_token: Option<Seq<char>>,
    ) -> Seq<char> {
        self.host + ":"@ + decimal(self.port as nat) + "/?Action=connect&DBUser="@ + uri_component(
            self.user,
        ) + signature_text(params, session_token)
    }

    /// The token, or the failure to make it: the failure to sign, else the
    /// token of the request to connect and the parameters of the signature.
    pub open spec fn token(
        self,
        credentials: CredentialsView,
        ambient_region: Option<Seq<char>>,
        now: u64,
    ) -> Result<Seq<char>, ErrorView> {
        match self.signature(credentials, ambient_region, now) {
            Err(error) => Err(error),
            Ok(params) => connect_token(self.host, self.port, self.user, params),
        }
    }
}

/// The same settings, credentials, ambient region and time give the same
/// token or the same failure: an outcome of [`Signer::fetch_token`] is a
/// function of what is handed in.
pub proof fn lemma_token_is_determined(
    signer: Signer,
    credentials: Credentials,
    ambient_region: Option<&str>,
    now: u64,
    first: Result<String, Error>,
    second: Result<String, Error>,
)
    requires
        outcome(first) == signer@.token(credentials@, text_view(ambient_region), now),
        outcome(second) == signer@.token(credentials@, text_view(ambient_region), now),
    ensures
        outcome(first) == outcome(second),
{
}

/// Signing for a signer succeeds exactly when the host holds none of `/`,
/// `?` and `#`, the URL of the request is accepted, the time is no later
/// than `MAX_EPOCH_SECONDS`, the request is of signable size and signing
/// goes through. Where the host or the URL is refused, the failure is a
/// `ParseError`; every other failure is a `SignerError`.
pub proof fn lemma_signing_succeeds_when(
    signer: Signer,
    credentials: Credentials,
    ambient_region: Option<&str>,
    now: u64,
)
    ensures
        signer@.signature(credentials@, text_view(ambient_region), now) is Ok <==> {
            &&& !ends_authority(signer@.host)
            &&& request_refusal("GET"@, signer@.url()) is None
            &&& now <= MAX_EPOCH_SECONDS
            &&& signable_size(
                signer@.url(),
                credentials@.access_key_id,
                credentials@.session_token,
                resolved_region(signer@.region, text_view(ambient_region)),
                "rds-db"@,
            )
            &&& presigned_query(
                "GET"@,
                signer@.url(),
                credentials@.access_key_id,
                credentials@.secret_access_key,
                credentials@.session_token,
                resolved_region(signer@.region, text_view(ambient_region)),
                "rds-db"@,
                now,
                signer@.expires_in,
            ) is Ok
        },
        signer@.signature(credentials@, text_view(ambient_region), now) matches Err(error) ==> {
            if ends_authority(signer@.host) {
                error == ErrorView::ParseError(
                    "host holds a character that ends the authority"@,
                )
            } else if request_refusal("GET"@, signer@.url()) is Some {
                error == ErrorView::ParseError(request_refusal("GET"@, signer@.url())->Some_0)
            } else {
                error is SignerError
            }
        },
{
    lemma_connect_url_has_scheme(signer@.host, signer@.port, signer@.user);
}

/// The scope of a signature names the region that is set, whatever the
/// ambient region is, and `us-east-1` where neither is there.
pub proof fn lemma_scope_names_the_region(
    signer: Signer,
    credentials: Credentials,
    ambient_region: Option<&str>,
    now: u64,
    params: Seq<(Seq<char>, Seq<char>)>,
)
    requires
        signature_params(
            params,
            credentials@.access_key_id,
            credentials@.session_token,
            resolved_region(signer@.region, text_view(ambient_region)),
            "rds-db"@,
            now,
            signer@.expires_in,
        ),
    ensures
        signer@.region matches Some(region) ==> params[1].1 == credential(
            credentials@.access_key_id,
            params[2].1.take(8),
            region,
            "rds-db"@,
        ),
        signer@.region is None && ambient_region is None ==> params[1].1 == credential(
            credentials@.access_key_id,
            params[2].1.take(8),
            "us-east-1"@,
            "rds-db"@,
        ),
{
}

/// A token with `https://` in front of it is the URL of the request to
/// connect after the parameters of the signature have joined its query.
/// The one difference: where the parser left out the port because it is the
/// one that `https` stands for, the token holds the port all the same.
pub proof fn lemma_token_restores_signed_url(
    signer: Signer,
    credentials: Credentials,
    ambient_region: Option<&str>,
    now: u64,
    token: Seq<char>,
)
    requires
        signer@.token(credentials@, text_view(ambient_region), now) == Ok::<
            Seq<char>,
            ErrorView,
        >(token),
    ensures
        signer@.signature(credentials@, text_view(ambient_region), now) is Ok,
        parsed_url(signer@.url()) is Ok,
        with_query(
            parsed_url(signer@.url())->Ok_0,
            signer@.signature(credentials@, text_view(ambient_region), now)->Ok_0,
        ) is Some,
        ({
            let parsed = parsed_url(signer@.url())->Ok_0;
            let signed = with_query(
                parsed,
                signer@.signature(credentials@, text_view(ambient_region), now)->Ok_0,
            )->Some_0;
            if signer@.port == HTTPS_PORT && parsed == portless_connect_url(
                signer@.host,
                signer@.user,
            ) && parsed.is_prefix_of(signed) {
                &&& signed == parsed + signed.skip(parsed.len() as int)
                &&& "https://"@ + token == signer@.url() + signed.skip(parsed.len() as int)
            } else {
                "https://"@ + token == signed
            }
        }),
{
    let params = signer@.signature(credentials@, text_view(ambient_region), now)->Ok_0;
    let parsed = parsed_url(signer@.url())->Ok_0;
    let signed = with_query(parsed, params)->Some_0;
    let url = signer@.url();
    lemma_connect_url_has_scheme(signer@.host, signer@.port, signer@.user);
    assert(url =~= url.take(8) + url.skip(8));
    if kept_by_parser(parsed, signer@.host, signer@.port, signer@.user) && parsed.is_prefix_of(
        signed,
    ) {
        assert(signed =~= parsed + signed.skip(parsed.len() as int));
        assert("https://"@ + token =~= url + signed.skip(parsed.len() as int));
        reveal_strlit("https://");
        reveal_strlit(":");
        reveal_strlit("/?Action=connect&DBUser=");
        lemma_decimal_begins_with_digit(signer@.port as nat);
        if parsed == portless_connect_url(signer@.host, signer@.user) {
            // The URL with its port and the URL without it differ in the
            // character after the host.
            let at = 8 + signer@.host.len();
            assert(url[at as int] == ':');
            assert(parsed[at as int] == '/');
        }
    } else {
        lemma_scheme_restores_url(signed, token);
    }
}

/// A name and a value as they stand in a query after an `&`, neither
/// changed.
pub open spec fn plain_pair(name: Seq<char>, value: Seq<char>) -> Seq<char> {
    seq!['&'] + name + seq!['='] + value
}

/// The parameters that carry a signature as they stand in a token: each
/// after an `&`, with its name, `=` and its value. The credential and the
/// session token are form-encoded; the other values stand for themselves.
pub open spec fn signature_text(
    params: Seq<(Seq<char>, Seq<char>)>,
    session_token: Option<Seq<char>>,
) -> Seq<char> {
    plain_pair("X-Amz-Algorithm"@, "AWS4-HMAC-SHA256"@) + plain_pair(
        "X-Amz-Credential"@,
        form_encoded(params[1].1),
    ) + plain_pair("X-Amz-Date"@, params[2].1) + plain_pair("X-Amz-Expires"@, params[3].1)
        + plain_pair("X-Amz-SignedHeaders"@, "host"@) + plain_pair(
        "X-Amz-Signature"@,
        params[5].1,
    ) + match session_token {
        Some(token) => plain_pair("X-Amz-Security-Token"@, form_encoded(token)),
        None => Seq::empty(),
    }
}

/// The names of the parameters that carry a signature, the name of the
/// algorithm and the signed header hold no character that form-encoding
/// changes.
proof fn lemma_names_stand_for_themselves()
    ensures
        form_encoded("X-Amz-Algorithm"@) == "X-Amz-Algorithm"@,
        form_encoded("X-Amz-Credential"@) == "X-Amz-Credential"@,
        form_encoded("X-Amz-Date"@) == "X-Amz-Date"@,
        form_encoded("X-Amz-Expires"@) == "X-Amz-Expires"@,
        form_encoded("X-Amz-SignedHeaders"@) == "X-Amz-SignedHeaders"@,
        form_encoded("X-Amz-Signature"@) == "X-Amz-Signature"@,
        form_encoded("X-Amz-Security-Token"@) == "X-Amz-Security-Token"@,
        form_encoded("AWS4-HMAC-SHA256"@) == "AWS4-HMAC-SHA256"@,
        form_encoded("host"@) == "host"@,
{
    assert(form_encoded("X-Amz-Algorithm"@) == "X-Amz-Algorithm"@) by {
        reveal_strlit("X-Amz-Algorithm");
        lemma_form_encoded_keeps("X-Amz-Algorithm"@);
    }
    assert(form_encoded("X-Amz-Credential"@) == "X-Amz-Credential"@) by {
        reveal_strlit("X-Amz-Credential");
        lemma_form_encoded_keeps("X-Amz-Credential"@);
    }
    assert(form_encoded("X-Amz-Date"@) == "X-Amz-Date"@) by {
        reveal_strlit("X-Amz-Date");
        lemma_form_encoded_keeps("X-Amz-Date"@);
    }
    assert(form_encoded("X-Amz-Expires"@) == "X-Amz-Expires"@) by {
        reveal_strlit("X-Amz-Expires");
        lemma_form_encoded_keeps("X-Amz-Expires"@);
    }
    assert(form_encoded("X-Amz-SignedHeaders"@) == "X-Amz-SignedHeaders"@) by {
        reveal_strlit("X-Amz-SignedHeaders");
        lemma_form_encoded_keeps("X-Amz-SignedHeaders"@);
    }
    assert(form_encoded("X-Amz-Signature"@) == "X-Amz-Signature"@) by {
        reveal_strlit("X-Amz-Signature");
        lemma_form_encoded_keeps("X-Amz-Signature"@);
    }
    assert(form_encoded("X-Amz-Security-Token"@) == "X-Amz-Security-Token"@) by {
        reveal_strlit("X-Amz-Security-Token");
        lemma_form_encoded_keeps("X-Amz-Security-Token"@);
    }
    assert(form_encoded("AWS4-HMAC-SHA256"@) == "AWS4-HMAC-SHA256"@) by {
        reveal_strlit("AWS4-HMAC-SHA256");
        lemma_form_encoded_keeps("AWS4-HMAC-SHA256"@);
    }
    assert(form_encoded("host"@) == "host"@) by {
        reveal_strlit("host");
        lemma_form_encoded_keeps("host"@);
    }
}

/// The pairs of a list join a query one after the other: the first, then
/// the rest.
proof fn lemma_joined_unfolds(params: Seq<(Seq<char>, Seq<char>)>, k: int)
    requires
        0 <= k < params.len(),
    ensures
        joined(params.skip(k)) == joined_pair(params[k].0, params[k].1) + joined(
            params.skip(k + 1),
        ),
{
    let rest = params.skip(k);
    assert(rest[0] == params[k]);
    assert(rest.skip(1) =~= params.skip(k + 1));
}

/// The time stamp, the validity and the signature hold no character that
/// form-encoding changes.
proof fn lemma_values_stand_for_themselves(
    params: Seq<(Seq<char>, Seq<char>)>,
    access_key_id: Seq<char>,
    session_token: Option<Seq<char>>,
    region: Seq<char>,
    service: Seq<char>,
    time: u64,
    expires_in: u64,
)
    requires
        signature_params(params, access_key_id, session_token, region, service, time, expires_in),
    ensures
        form_encoded(params[2].1) == params[2].1,
        form_encoded(params[3].1) == params[3].1,
        form_encoded(params[5].1) == params[5].1,
{
    assert(form_encoded(params[3].1) == params[3].1) by {
        lemma_decimal_is_digits(expires_in as nat);
        lemma_form_encoded_keeps(decimal(expires_in as nat));
    }
    assert(form_encoded(params[2].1) == params[2].1) by {
        let stamp = amz_date(time);
        assert forall|i: int| 0 <= i < stamp.len() implies is_form_safe_char(
            #[trigger] stamp[i],
        ) by {
            if i != 8 && i != 15 {
                assert('0' <= stamp[i] <= '9');
            }
        }
        lemma_form_encoded_keeps(stamp);
    }
    assert(form_encoded(params[5].1) == params[5].1) by {
        let tag = params[5].1;
        assert forall|i: int| 0 <= i < tag.len() implies is_form_safe_char(#[trigger] tag[i]) by {
            assert(is_lower_hex(tag[i]));
        }
        lemma_form_encoded_keeps(tag);
    }
}

/// Six or seven pairs join a query one after the other.
proof fn lemma_joined_of_six_or_seven(params: Seq<(Seq<char>, Seq<char>)>)
    requires
        params.len() == 6 || params.len() == 7,
    ensures
        joined(params) == joined_pair(params[0].0, params[0].1) + joined_pair(
            params[1].0,
            params[1].1,
        ) + joined_pair(params[2].0, params[2].1) + joined_pair(params[3].0, params[3].1)
            + joined_pair(params[4].0, params[4].1) + joined_pair(params[5].0, params[5].1) + (
        if params.len() == 7 {
            joined_pair(params[6].0, params[6].1)
        } else {
            Seq::<char>::empty()
        }),
{
    let j0 = joined_pair(params[0].0, params[0].1);
    let j1 = joined_pair(params[1].0, params[1].1);
    let j2 = joined_pair(params[2].0, params[2].1);
    let j3 = joined_pair(params[3].0, params[3].1);
    let j4 = joined_pair(params[4].0, params[4].1);
    let j5 = joined_pair(params[5].0, params[5].1);
    let last = if params.len() == 7 {
        joined_pair(params[6].0, params[6].1)
    } else {
        Seq::<char>::empty()
    };
    assert(joined(params.skip(6)) == last) by {
        if params.len() == 7 {
            lemma_joined_unfolds(params, 6);
            assert(params.skip(7).len() == 0);
            assert(joined(params.skip(7)) =~= Seq::<char>::empty());
            assert(joined(params.skip(6)) =~= joined_pair(params[6].0, params[6].1));
        } else {
            assert(params.skip(6).len() == 0);
        }
    }
    assert(params.skip(0) =~= params);
    lemma_joined_unfolds(params, 0);
    lemma_joined_unfolds(params, 1);
    lemma_joined_unfolds(params, 2);
    lemma_joined_unfolds(params, 3);
    lemma_joined_unfolds(params, 4);
    lemma_joined_unfolds(params, 5);
    let t5 = j5 + last;
    let t4 = j4 + t5;
    let t3 = j3 + t4;
    let t2 = j2 + t3;
    let t1 = j1 + t2;
    assert(joined(params.skip(5)) == t5);
    assert(joined(params.skip(4)) == t4);
    assert(joined(params.skip(3)) == t3);
    assert(joined(params.skip(2)) == t2);
    assert(joined(params.skip(1)) == t1);
    assert(joined(params) == j0 + t1);
    lemma_joins_in_a_row(j0, j1, j2, j3, j4, j5, last);
}

/// Seven texts joined from the right are the seven joined from the left.
proof fn lemma_joins_in_a_row(
    a: Seq<char>,
    b: Seq<char>,
    c: Seq<char>,
    d: Seq<char>,
    e: Seq<char>,
    f: Seq<char>,
    g: Seq<char>,
)
    ensures
        a + (b + (c + (d + (e + (f + g))))) == a + b + c + d + e + f + g,
{
    assert(a + (b + (c + (d + (e + (f + g))))) =~= a + b + c + d + e + f + g);
}

/// The parameters that carry a signature join a query as
/// [`signature_text`] says: names, algorithm, time stamp, validity, signed
/// headers and signature hold no character that form-encoding changes.
pub proof fn lemma_signature_joins_as_text(
    params: Seq<(Seq<char>, Seq<char>)>,
    access_key_id: Seq<char>,
    session_token: Option<Seq<char>>,
    region: Seq<char>,
    service: Seq<char>,
    time: u64,
    expires_in: u64,
)
    requires
        signature_params(params, access_key_id, session_token, region, service, time, expires_in),
    ensures
        joined(params) == signature_text(params, session_token),
{
    lemma_names_stand_for_themselves();
    lemma_values_stand_for_themselves(
        params,
        access_key_id,
        session_token,
        region,
        service,
        time,
        expires_in,
    );
    lemma_joined_of_six_or_seven(params);
    reveal(joined_pair);
    assert(joined_pair(params[0].0, params[0].1) == plain_pair(
        "X-Amz-Algorithm"@,
        "AWS4-HMAC-SHA256"@,
    ));
    assert(joined_pair(params[1].0, params[1].1) == plain_pair(
        "X-Amz-Credential"@,
        form_encoded(params[1].1),
    ));
    assert(joined_pair(params[2].0, params[2].1) == plain_pair("X-Amz-Date"@, params[2].1));
    assert(joined_pair(params[3].0, params[3].1) == plain_pair("X-Amz-Expires"@, params[3].1));
    assert(joined_pair(params[4].0, params[4].1) == plain_pair("X-Amz-SignedHeaders"@, "host"@));
    assert(joined_pair(params[5].0, params[5].1) == plain_pair(
        "X-Amz-Signature"@,
        params[5].1,
    ));
    if session_token is Some {
        assert(joined_pair(params[6].0, params[6].1) == plain_pair(
            "X-Amz-Security-Token"@,
            form_encoded(session_token->Some_0),
        ));
    }
}

/// Where the parser keeps the URL of the request to connect, the token is
/// the host, a colon, the port, the path `/` and the query: the action, the
/// database user as a component of a URI, and the parameters of the
/// signature in their order, each once.
pub proof fn lemma_token_text(
    signer: Signer,
    credentials: Credentials,
    ambient_region: Option<&str>,
    now: u64,
    token: Seq<char>,
)
    requires
        signer@.token(credentials@, text_view(ambient_region), now) == Ok::<
            Seq<char>,
            ErrorView,
        >(token),
        signer@.kept_as_built(),
    ensures
        token == signer@.host + ":"@ + decimal(signer@.port as nat) + "/?Action=connect&DBUser="@
            + uri_component(signer@.user) + joined(
            signer@.signature(credentials@, text_view(ambient_region), now)->Ok_0,
        ),
{
    let params = signer@.signature(credentials@, text_view(ambient_region), now)->Ok_0;
    let parsed = parsed_url(signer@.url())->Ok_0;
    let url = signer@.url();
    lemma_authority_has_no_end(signer@.host);
    lemma_connect_url_has_plain_query(signer@.host, signer@.port, signer@.user);
    lemma_params_join_plain_query(parsed, params);
    let signed = parsed + joined(params);
    assert(parsed =~= signed.subrange(0, parsed.len() as int));
    assert(signed.skip(parsed.len() as int) =~= joined(params));
    reveal_strlit("https://");
    assert(url.skip(8) =~= signer@.host + ":"@ + decimal(signer@.port as nat)
        + "/?Action=connect&DBUser="@ + uri_component(signer@.user));
}

/// Where the parser keeps the URL of the request to connect, a token whose
/// signature has the shape of one is spelled out: host, colon, port, `/?Action=connect&DBUser=`, the database user as
/// a component of a URI, and then the algorithm, the credential, the time
/// stamp, the validity, the signed headers, the signature and, with
/// temporary credentials, the session token, each once and in this order.
pub proof fn lemma_token_is_spelled_out(
    signer: Signer,
    credentials: Credentials,
    ambient_region: Option<&str>,
    now: u64,
    token: Seq<char>,
)
    requires
        signer@.token(credentials@, text_view(ambient_region), now) == Ok::<
            Seq<char>,
            ErrorView,
        >(token),
        signature_params(
            signer@.signature(credentials@, text_view(ambient_region), now)->Ok_0,
            credentials@.access_key_id,
            credentials@.session_token,
            resolved_region(signer@.region, text_view(ambient_region)),
            "rds-db"@,
            now,
            signer@.expires_in,
        ),
        signer@.kept_as_built(),
    ensures
        token == signer@.spelled_token(
            signer@.signature(credentials@, text_view(ambient_region), now)->Ok_0,
            credentials@.session_token,
        ),
{
    lemma_token_text(signer, credentials, ambient_region, now, token);
    lemma_signature_joins_as_text(
        signer@.signature(credentials@, text_view(ambient_region), now)->Ok_0,
        credentials@.access_key_id,
        credentials@.session_token,
        resolved_region(signer@.region, text_view(ambient_region)),
        "rds-db"@,
        now,
        signer@.expires_in,
    );
}

/// Where the parser keeps the URL of the request to connect, the first `?`
/// of the token is the one that begins its query: it stands after the host,
/// the colon, the port and the path `/`.
pub proof fn lemma_token_query_follows_the_port(
    signer: Signer,
    credentials: Credentials,
    ambient_region: Option<&str>,
    now: u64,
    token: Seq<char>,
)
    requires
        signer@.token(credentials@, text_view(ambient_region), now) == Ok::<
            Seq<char>,
            ErrorView,
        >(token),
        signer@.kept_as_built(),
    ensures
        first_index(token, '?') == signer@.host.len() + 1 + decimal(signer@.port as nat).len() + 1,
        token.skip(first_index(token, '?') + 1) == "Action=connect&DBUser="@ + uri_component(
            signer@.user,
        ) + joined(signer@.signature(credentials@, text_view(ambient_region), now)->Ok_0),
{
    lemma_token_text(signer, credentials, ambient_region, now, token);
    lemma_authority_has_no_end(signer@.host);
    lemma_decimal_is_digits(signer@.port as nat);
    reveal_strlit(":");
    reveal_strlit("/?Action=connect&DBUser=");
    reveal_strlit("Action=connect&DBUser=");
    let host = signer@.host;
    let digits = decimal(signer@.port as nat);
    let at: int = (host.len() + 1 + digits.len() + 1) as int;
    assert(token[at] == '?');
    assert forall|i: int| 0 <= i < at implies token[i] != '?' by {
        if i < host.len() {
            assert(token[i] == host[i]);
        } else if i == host.len() {
        } else if i < host.len() + 1 + digits.len() {
            assert(token[i] == digits[i - host.len() - 1]);
        } else {
        }
    }
    lemma_first_index(token, '?');
    assert(token.skip(at + 1) =~= "Action=connect&DBUser="@ + uri_component(signer@.user) + joined(
        signer@.signature(credentials@, text_view(ambient_region), now)->Ok_0,
    ));
}

/// Where the parser keeps the URL of the request to connect, the token
/// begins with the host, a colon, the port and the query of the request, in
/// which the database user stands as a component of a URI. Unless the host
/// itself begins with `https://`, the token does not.
pub proof fn lemma_token_begins_with_host_and_port(
    signer: Signer,
    credentials: Credentials,
    ambient_region: Option<&str>,
    now: u64,
    token: Seq<char>,
)
    requires
        signer@.token(credentials@, text_view(ambient_region), now) == Ok::<
            Seq<char>,
            ErrorView,
        >(token),
        signer@.kept_as_built(),
    ensures
        (signer@.host + ":"@ + decimal(signer@.port as nat) + "/?Action=connect&DBUser="@
            + uri_component(signer@.user)).is_prefix_of(token),
        !has_https_scheme(signer@.host) ==> !has_https_scheme(token),
{
    lemma_token_text(signer, credentials, ambient_region, now, token);
    let front = signer@.host + ":"@ + decimal(signer@.port as nat) + "/?Action=connect&DBUser="@
        + uri_component(signer@.user);
    reveal_strlit("https://");
    reveal_strlit(":");
    assert(front =~= token.subrange(0, front.len() as int));
    lemma_decimal_begins_with_digit(signer@.port as nat);
    if has_https_scheme(token) && !has_https_scheme(signer@.host) {
        let k = signer@.host.len() as int;
        if k >= 8 {
            assert(signer@.host.take(8) =~= token.take(8));
        } else {
            assert(token[k] == ':');
            assert(token.take(8)[k] == "https://"@[k]);
            assert(k == 5);
            assert(token[6] == decimal(signer@.port as nat)[0]);
            assert(token.take(8)[6] == "https://"@[6]);
        }
    }
}

impl View for Signer {
    type V = SignerView;

    closed spec fn view(&self) -> SignerView {
        SignerView {
            expires_in: self.expires_in,
            host: self.host@,
            port: self.port,
            user: self.user@,
            region: match self.region {
                Some(region) => Some(region@),
                None => None,
            },
        }
    }
}

impl Default for Signer {
    fn default() -> (out: Self)
        ensures
            out@ == SignerView::initial(),
    {
        Signer {
            expires_in: 900,
            host: "localhost".to_owned(),
            port: 5432,
            user: "postgres".to_owned(),
            region: None,
        }
    }
}

/// Sets up a [`Signer`] step by step.
#[derive(Debug)]
pub struct SignerBuilder {
    signer: Signer,
}

impl View for SignerBuilder {
    type V = SignerView;

    closed spec fn view(&self) -> SignerView {
        self.signer@
    }
}

impl SignerBuilder {
    /// A builder that holds the initial settings.
    #[must_use]
    pub fn new() -> (out: Self)
        ensures
            out@ == SignerView::initial(),
    {
        SignerBuilder { signer: Signer::default() }
    }

    /// Sets the validity of a token, in seconds.
    #[must_use]
    pub fn expires_in(self, expires_in: u64) -> (out: Self)
        ensures
            out@ == (SignerView { expires_in, ..self@ }),
    {
        let mut signer = self.signer;
        signer.expires_in = expires_in;
        SignerBuilder { signer }
    }

    /// Sets the host name of the database instance.
    #[must_use]
    pub fn host(self, host: &str) -> (out: Self)
        ensures
            out@ == (SignerView { host: host@, ..self@ }),
    {
        let mut signer = self.signer;
        signer.host = host.to_owned();
        SignerBuilder { signer }
    }

    /// Sets the port the database listens on.
    #[must_use]
    pub fn port(self, port: u16) -> (out: Self)
        ensures
            out@ == (SignerView { port, ..self@ }),
    {
        let mut signer = self.signer;
        signer.port = port;
        SignerBuilder { signer }
    }

    /// Sets the region of the database instance.
    #[must_use]
    pub fn region(self, region: &str) -> (out: Self)
        ensures
            out@ == (SignerView { region: Some(region@), ..self@ }),
    {
        let mut signer = self.signer;
        signer.region = Some(region.to_owned());
        SignerBuilder { signer }
    }

    /// Sets the database user to connect as.
    #[must_use]
    pub fn user(self, user: &str) -> (out: Self)
        ensures
            out@ == (SignerView { user: user@, ..self@ }),
    {
        let mut signer = self.signer;
        signer.user = user.to_owned();
        SignerBuilder { signer }
    }

    /// Hands out the signer with the settings made so far.
    #[must_use]
    pub fn build(self) -> (out: Signer)
        ensures
            out@ == self@,
    {
        self.signer
    }
}

impl Signer {
    /// A builder that holds the initial settings.
    #[must_use]
    pub fn builder() -> (out: SignerBuilder)
        ensures
            out@ == SignerView::initial(),
    {
        SignerBuilder::new()
    }

    /// The region set for this signer, if any.
    fn configured_region(&self) -> (out: Option<&str>)
        ensures
            text_view(out) == self@.region,
    {
        match &self.region {
            Some(region) => Some(region.as_str()),
            None => None,
        }
    }

    /// Signs the request to connect and returns the parameters that carry
    /// the signature, in the order in which they join the query of the URL.
    ///
    /// `ambient_region` is the region of the surroundings, used if none is
    /// set; `now` is the time in seconds since 1970-01-01T00:00:00Z.
    ///
    /// Fails with `ParseError` if the host holds `/`, `?` or `#` or the URL
    /// of the request is refused, and with `SignerError` if the request
    /// cannot be signed.
    pub fn sign_request(
        &self,
        credentials: &Credentials,
        ambient_region: Option<&str>,
        now: u64,
    ) -> (out: Result<Vec<QueryParam>, Error>)
        ensures
            params_outcome(out) == self@.signature(credentials@, text_view(ambient_region), now),
            out matches Ok(params) ==> signature_params(
                params_view(params@),
                credentials@.access_key_id,
                credentials@.session_token,
                resolved_region(self@.region, text_view(ambient_region)),
                "rds-db"@,
                now,
                self@.expires_in,
            ),
    {
        if holds_end_of_authority(self.host.as_str()) {
            return Err(
                Error::ParseError("host holds a character that ends the authority".to_owned()),
            );
        }
        let region = resolve_region(self.configured_region(), ambient_region);
        let url = build_connect_url(self.host.as_str(), self.port, self.user.as_str());
        sign_query(
            "GET",
            url.as_str(),
            credentials,
            region.as_str(),
            "rds-db",
            now,
            self.expires_in,
        )
    }

    /// Makes a token for the given credentials at the given time.
    ///
    /// `ambient_region` is the region of the surroundings, used if none is
    /// set; `now` is the time in seconds since 1970-01-01T00:00:00Z. The token
    /// is the signed URL of the request to connect, without `https://`: host,
    /// colon, port, `/?Action=connect&DBUser=` and the database user as a
    /// component of a URI, with the parameters of the signature appended in
    /// the order in which [`Signer::sign_request`] returns them. Where the
    /// URL parser writes the URL otherwise than it was built, for a host in
    /// upper case say, the token follows the parser.
    ///
    /// Fails with `ParseError` if the host holds `/`, `?` or `#`, or if the
    /// URL of the request is refused, cannot be parsed or cannot be put
    /// together again, and with `SignerError` if the request cannot be
    /// signed.
    pub fn fetch_token(
        &self,
        credentials: &Credentials,
        ambient_region: Option<&str>,
        now: u64,
    ) -> (out: Result<String, Error>)
        ensures
            outcome(out) == self@.token(credentials@, text_view(ambient_region), now),
            out is Ok ==> {
                &&& self@.signature(credentials@, text_view(ambient_region), now) matches Ok(params)
                &&& signature_params(
                    params,
                    credentials@.access_key_id,
                    credentials@.session_token,
                    resolved_region(self@.region, text_view(ambient_region)),
                    "rds-db"@,
                    now,
                    self@.expires_in,
                )
            },
            out matches Ok(token) ==> (self@.kept_as_built() ==> token@ == self@.spelled_token(
                self@.signature(credentials@, text_view(ambient_region), now)->Ok_0,
                credentials@.session_token,
            )),
    {
        match self.sign_request(credentials, ambient_region, now) {
            Err(error) => Err(error),
            Ok(params) => {
                let out = assemble_connect(
                    self.host.as_str(),
                    self.port,
                    self.user.as_str(),
                    &params,
                );
                proof {
                    if out is Ok && self@.kept_as_built() {
                        lemma_token_is_spelled_out(
                            *self,
                            *credentials,
                            ambient_region,
                            now,
                            out->Ok_0@,
                        );
                    }
                }
                out
            },
        }
    }

    /// Makes a token from what a source of credentials provided.
    ///
    /// `provided` is `None` where there is no source of credentials, and the
    /// text of the failure where the source failed. Both are a `SignerError`:
    /// the first with the text `no credentials provider found`, the second
    /// with the text of the failure. With credentials the outcome is that of
    /// [`Signer::fetch_token`].
    pub fn fetch_token_for(
        &self,
        provided: Option<Result<Credentials, String>>,
        ambient_region: Option<&str>,
        now: u64,
    ) -> (out: Result<String, Error>)
        ensures
            provided is None ==> outcome(out) == Err::<Seq<char>, ErrorView>(
                ErrorView::SignerError("no credentials provider found"@),
            ),
            provided matches Some(Err(reason)) ==> outcome(out) == Err::<Seq<char>, ErrorView>(
                ErrorView::SignerError(reason@),
            ),
            provided matches Some(Ok(credentials)) ==> outcome(out) == self@.token(
                credentials@,
                text_view(ambient_region),
                now,
            ),
    {
        match provided {
            None => Err(Error::SignerError("no credentials provider found".to_owned())),
            Some(Err(reason)) => Err(Error::SignerError(reason)),
            Some(Ok(credentials)) => self.fetch_token(&credentials, ambient_region, now),
        }
    }
}

} // verus!
