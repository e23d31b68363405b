//! The URL of a connection request: how it is put together, extended by
//! query parameters and turned into a token.

use crate::presign::{params_view, QueryParam};
use crate::text::{
    byte_len, decimal, first_index, form_encoded, has_https_scheme, is_encoded_char,
    lemma_decimal_is_digits, lemma_escaped_bytes_are_encoded, lemma_first_index,
    lemma_form_bytes_are_encoded, push_decimal, push_uri_component, same_text, starts_with,
    starts_with_https, uri_component, utf8_len,
};
use vstd::utf8::encode_utf8;
use crate::{outcome, Error, ErrorView};
use url::Url;
use vstd::prelude::*;
use vstd::string::*;

verus! {

/// A parsed URL of the `url` crate, held as it is.
#[verifier::external_type_specification]
#[verifier::external_body]
pub struct ExUrl(Url);

/// The text of a parsed URL: its serialization.
pub uninterp spec fn url_text(url: Url) -> Seq<char>;

/// What parsing a text as a URL gives: the text of the parsed URL, or the
/// text of the failure.
pub uninterp spec fn parsed_url(input: Seq<char>) -> Result<Seq<char>, Seq<char>>;

/// The text of a URL after a name and a value have been appended to the
/// query of the URL with the given text. The fragment, which begins at the
/// first `#`, stays at the end. Before it come a `?` where the URL has no
/// query yet, else an `&` unless the query is empty; then the name, `=` and
/// the value, both form-encoded.
pub open spec fn with_query_pair(url: Seq<char>, name: Seq<char>, value: Seq<char>) -> Seq<
    char,
> {
    let cut = first_index(url, '#');
    let front = url.take(cut);
    let mark = first_index(front, '?');
    let separator = if mark == front.len() {
        seq!['?']
    } else if mark == front.len() - 1 {
        Seq::<char>::empty()
    } else {
        seq!['&']
    };
    front + separator + form_encoded(name) + seq!['='] + form_encoded(value) + url.skip(cut)
}

/// The longest URL, name or value, in bytes, that a pair is appended to or
/// made of.
pub const MAX_PART_BYTES: usize = 0x0fff_ffff;

/// Whether a name and a value can be appended to the URL with the given
/// text: none of the three is longer than `MAX_PART_BYTES`.
pub open spec fn appendable(url: Seq<char>, name: Seq<char>, value: Seq<char>) -> bool {
    &&& utf8_len(url) <= MAX_PART_BYTES
    &&& utf8_len(name) <= MAX_PART_BYTES
    &&& utf8_len(value) <= MAX_PART_BYTES
}

/// Calls `Url::parse`.
///
/// Believed of it: the outcome is `parsed_url` of the input; on success the
/// text of the URL returned, on failure the text of the error.
#[verifier::external_body]
fn parse_url(input: &str) -> (out: Result<Url, String>)
    ensures
        match out {
            Ok(url) => parsed_url(input@) == Ok::<Seq<char>, Seq<char>>(url_text(url)),
            Err(reason) => parsed_url(input@) == Err::<Seq<char>, Seq<char>>(reason@),
        },
{
    Url::parse(input).map_err(|e| e.to_string())
}

/// Calls `Url::query_pairs_mut` and, on what it returns, `append_pair`.
///
/// Believed of it: the text of the URL becomes `with_query_pair` of its text
/// before, the name and the value. That rests on the fragment of a URL
/// beginning at the first `#` of its text and its query at the first `?`
/// before that. The precondition keeps the text below the 4 GB that a URL
/// can have.
#[verifier::external_body]
fn append_pair(url: &mut Url, name: &str, value: &str)
    requires
        appendable(url_text(*old(url)), name@, value@),
    ensures
        url_text(*final(url)) == with_query_pair(url_text(*old(url)), name@, value@),
{
    url.query_pairs_mut().append_pair(name, value);
}

/// Calls `Url::as_str`.
///
/// Believed of it: the result is the text of the URL.
#[verifier::external_body]
fn url_as_str(url: &Url) -> (out: &str)
    ensures
        out@ == url_text(*url),
{
    url.as_str()
}

/// The port that the scheme `https` stands for where none is written.
pub const HTTPS_PORT: u16 = 443;

/// The URL of a request to connect: `https`, the host, the port, the path
/// `/` and a query that names the action and the database user, the user
/// written as a component of a URI.
pub open spec fn connect_url(host: Seq<char>, port: u16, user: Seq<char>) -> Seq<char> {
    "https://"@ + host + ":"@ + decimal(port as nat) + "/?Action=connect&DBUser="@ + uri_component(
        user,
    )
}

/// The URL of a request to connect with its port left out.
pub open spec fn portless_connect_url(host: Seq<char>, user: Seq<char>) -> Seq<char> {
    "https://"@ + host + "/?Action=connect&DBUser="@ + uri_component(user)
}

/// The URL of a request to connect begins with `https://`, whatever the
/// host, the port and the user.
pub proof fn lemma_connect_url_has_scheme(host: Seq<char>, port: u16, user: Seq<char>)
    ensures
        has_https_scheme(connect_url(host, port, user)),
{
    reveal_strlit("https://");
    assert(connect_url(host, port, user).take(8) =~= "https://"@);
}

/// Builds the URL of a request to connect.
pub fn build_connect_url(host: &str, port: u16, user: &str) -> (out: String)
    ensures
        out@ == connect_url(host@, port, user@),
{
    let mut out = String::from_str("https://");
    out.append(host);
    out.append(":");
    push_decimal(&mut out, port as u64);
    out.append("/?Action=connect&DBUser=");
    push_uri_component(&mut out, user);
    out
}

/// Builds the URL of a request to connect with its port left out.
fn build_portless_connect_url(host: &str, user: &str) -> (out: String)
    ensures
        out@ == portless_connect_url(host@, user@),
{
    let mut out = String::from_str("https://");
    out.append(host);
    out.append("/?Action=connect&DBUser=");
    push_uri_component(&mut out, user);
    out
}

/// Appends a name and a value to the query of a URL, if the pair is
/// appendable; else leaves the URL as it is. Says whether it appended.
fn try_append_pair(url: &mut Url, name: &str, value: &str) -> (done: bool)
    ensures
        done == appendable(url_text(*old(url)), name@, value@),
        done ==> url_text(*final(url)) == with_query_pair(url_text(*old(url)), name@, value@),
        !done ==> *final(url) == *old(url),
{
    if byte_len(url_as_str(url)) <= MAX_PART_BYTES && byte_len(name) <= MAX_PART_BYTES && byte_len(
        value,
    ) <= MAX_PART_BYTES {
        append_pair(url, name, value);
        true
    } else {
        false
    }
}

/// The text of a URL after all the given pairs have been appended to its
/// query, first to last; `None` if one of them is not appendable when its
/// turn comes.
pub open spec fn with_query(url: Seq<char>, params: Seq<(Seq<char>, Seq<char>)>) -> Option<
    Seq<char>,
>
    decreases params.len(),
{
    if params.len() == 0 {
        Some(url)
    } else if !appendable(url, params[0].0, params[0].1) {
        None
    } else {
        with_query(with_query_pair(url, params[0].0, params[0].1), params.skip(1))
    }
}

/// Whether a text is that of a URL with a query that is not empty and
/// without a fragment: it holds a `?` and no `#`, and does not end in `?`.
pub open spec fn has_plain_query(url: Seq<char>) -> bool {
    &&& forall|i: int| 0 <= i < url.len() ==> #[trigger] url[i] != '#'
    &&& exists|i: int| 0 <= i < url.len() && #[trigger] url[i] == '?'
    &&& url.len() > 0 && url.last() != '?'
}

/// A name and a value as they join a query that is not empty: `&`, the
/// name, `=` and the value, both form-encoded.
#[verifier::opaque]
pub open spec fn joined_pair(name: Seq<char>, value: Seq<char>) -> Seq<char> {
    seq!['&'] + form_encoded(name) + seq!['='] + form_encoded(value)
}

/// The given pairs as they join a query that is not empty, first to last.
pub open spec fn joined(params: Seq<(Seq<char>, Seq<char>)>) -> Seq<char>
    decreases params.len(),
{
    if params.len() == 0 {
        Seq::empty()
    } else {
        joined_pair(params[0].0, params[0].1) + joined(params.skip(1))
    }
}

/// Appending to a URL with a query that is not empty and without a
/// fragment puts the pair at the end of its text, and the text stays of
/// that kind.
pub proof fn lemma_pair_joins_plain_query(url: Seq<char>, name: Seq<char>, value: Seq<char>)
    requires
        has_plain_query(url),
    ensures
        with_query_pair(url, name, value) == url + joined_pair(name, value),
        has_plain_query(with_query_pair(url, name, value)),
{
    reveal(joined_pair);
    lemma_first_index(url, '#');
    let cut = first_index(url, '#');
    assert(cut == url.len());
    let front = url.take(cut);
    assert(front =~= url);
    assert(url.skip(cut) =~= Seq::<char>::empty());
    lemma_first_index(url, '?');
    let mark = first_index(front, '?');
    let at = choose|i: int| 0 <= i < url.len() && #[trigger] url[i] == '?';
    assert(mark <= at);
    assert(mark < url.len() - 1) by {
        if mark == url.len() - 1 {
            assert(url[mark] == '?');
        }
    }
    let pair = joined_pair(name, value);
    let after = with_query_pair(url, name, value);
    assert(after =~= url + pair);
    lemma_form_bytes_are_encoded(encode_utf8(name));
    lemma_form_bytes_are_encoded(encode_utf8(value));
    let n = form_encoded(name);
    let v = form_encoded(value);
    assert forall|i: int| 0 <= i < pair.len() implies #[trigger] pair[i] != '#' && (i
        == pair.len() - 1 ==> pair[i] != '?') by {
        if i == 0 {
        } else if i <= n.len() {
            assert(pair[i] == n[i - 1]);
            assert(is_encoded_char(n[i - 1]));
        } else if i == n.len() + 1 {
        } else {
            assert(pair[i] == v[i - n.len() - 2]);
            assert(is_encoded_char(v[i - n.len() - 2]));
        }
    }
    assert forall|i: int| 0 <= i < after.len() implies #[trigger] after[i] != '#' by {
        if i >= url.len() {
            assert(after[i] == pair[i - url.len()]);
        }
    }
    assert(after[at] == '?');
    assert(after.last() == pair[pair.len() - 1]);
}

/// Appending pairs to a URL with a query that is not empty and without a
/// fragment puts them at the end of its text, first to last.
pub proof fn lemma_params_join_plain_query(url: Seq<char>, params: Seq<(Seq<char>, Seq<char>)>)
    requires
        has_plain_query(url),
        with_query(url, params) is Some,
    ensures
        with_query(url, params) == Some(url + joined(params)),
    decreases params.len(),
{
    if params.len() == 0 {
        assert(url + joined(params) =~= url);
    } else {
        let next = with_query_pair(url, params[0].0, params[0].1);
        lemma_pair_joins_plain_query(url, params[0].0, params[0].1);
        lemma_params_join_plain_query(next, params.skip(1));
        assert(next + joined(params.skip(1)) =~= url + joined(params));
    }
}

/// The URL of a request to connect, with its port or without, has a query
/// that is not empty and no fragment, unless the host holds a `#`.
pub proof fn lemma_connect_url_has_plain_query(host: Seq<char>, port: u16, user: Seq<char>)
    requires
        forall|i: int| 0 <= i < host.len() ==> #[trigger] host[i] != '#',
    ensures
        has_plain_query(connect_url(host, port, user)),
        has_plain_query(portless_connect_url(host, user)),
{
    reveal_strlit("https://");
    reveal_strlit(":");
    reveal_strlit("/?Action=connect&DBUser=");
    lemma_escaped_bytes_are_encoded(encode_utf8(user));
    lemma_decimal_is_digits(port as nat);
    let scheme = "https://"@;
    let colon = ":"@;
    let digits = decimal(port as nat);
    let query = "/?Action=connect&DBUser="@;
    let name = uri_component(user);
    let url = connect_url(host, port, user);
    let a: int = (scheme.len() + host.len()) as int;
    let b: int = a + 1 + digits.len();
    let c: int = b + query.len();
    assert forall|i: int| 0 <= i < url.len() implies #[trigger] url[i] != '#' && (i == url.len()
        - 1 ==> url[i] != '?') by {
        if i < scheme.len() {
            assert(url[i] == scheme[i]);
        } else if i < a {
            assert(url[i] == host[i - scheme.len()]);
        } else if i == a {
            assert(url[i] == colon[0]);
        } else if i < b {
            assert(url[i] == digits[i - a - 1]);
        } else if i < c {
            assert(url[i] == query[i - b]);
        } else {
            assert(url[i] == name[i - c]);
            assert(is_encoded_char(name[i - c]));
        }
    }
    assert(url[b + 1] == query[1]);
    let short = portless_connect_url(host, user);
    let d: int = a + query.len();
    assert forall|i: int| 0 <= i < short.len() implies #[trigger] short[i] != '#' && (i
        == short.len() - 1 ==> short[i] != '?') by {
        if i < scheme.len() {
            assert(short[i] == scheme[i]);
        } else if i < a {
            assert(short[i] == host[i - scheme.len()]);
        } else if i < d {
            assert(short[i] == query[i - a]);
        } else {
            assert(short[i] == name[i - d]);
            assert(is_encoded_char(name[i - d]));
        }
    }
    assert(short[a + 1] == query[1]);
}

/// Appends all the given parameters to the query of a URL, first to last.
/// Stops at the first that is not appendable, and says whether all were
/// appended.
fn append_params(url: &mut Url, params: &Vec<QueryParam>) -> (done: bool)
    ensures
        done == (with_query(url_text(*old(url)), params_view(params@)) is Some),
        done ==> with_query(url_text(*old(url)), params_view(params@)) == Some(
            url_text(*final(url)),
        ),
{
    let ghost all = params_view(params@);
    let ghost start = url_text(*url);
    let mut i: usize = 0;
    assert(all.skip(0) =~= all);
    while i < params.len()
        invariant
            i <= params.len(),
            all == params_view(params@),
            start == url_text(*old(url)),
            with_query(start, all) == with_query(url_text(*url), all.skip(i as int)),
        decreases params.len() - i,
    {
        let ghost rest = all.skip(i as int);
        let ghost before = url_text(*url);
        assert(rest.len() > 0 && rest[0] == params@[i as int]@);
        assert(rest.skip(1) =~= all.skip(i + 1));
        let param = &params[i];
        if !try_append_pair(url, param.name.as_str(), param.value.as_str()) {
            assert(with_query(before, rest) is None);
            return false;
        }
        i += 1;
    }
    true
}

/// A URL without its scheme: what follows `https://`, or the failure for a
/// text that does not begin with it.
pub open spec fn without_scheme(url: Seq<char>) -> Result<Seq<char>, ErrorView> {
    if has_https_scheme(url) {
        Ok(url.skip(8))
    } else {
        Err(ErrorView::ParseError("URL does not begin with https://"@))
    }
}

/// What is left of a URL without its scheme gives the URL back when
/// `https://` is put in front of it.
pub proof fn lemma_scheme_restores_url(url: Seq<char>, rest: Seq<char>)
    requires
        without_scheme(url) == Ok::<Seq<char>, ErrorView>(rest),
    ensures
        "https://"@ + rest == url,
{
    assert(url.take(8) + url.skip(8) =~= url);
}

/// Removes the scheme `https://` from the front of a URL.
pub fn strip_scheme(url: &str) -> (out: Result<String, Error>)
    ensures
        outcome(out) == without_scheme(url@),
{
    if starts_with_https(url) {
        let len = url.unicode_len();
        assert(url@.skip(8) =~= url@.subrange(8, len as int));
        Ok(url.substring_char(8, len).to_owned())
    } else {
        Err(Error::ParseError("URL does not begin with https://".to_owned()))
    }
}

/// The token made of a URL and the parameters that carry its signature: the
/// URL is parsed, the parameters are appended to its query, and the scheme is
/// removed from the text of the result.
pub open spec fn assembled(url: Seq<char>, params: Seq<(Seq<char>, Seq<char>)>) -> Result<
    Seq<char>,
    ErrorView,
> {
    match parsed_url(url) {
        Err(reason) => Err(ErrorView::ParseError(reason)),
        Ok(text) => match with_query(text, params) {
            None => Err(ErrorView::ParseError("URL too long"@)),
            Some(signed) => without_scheme(signed),
        },
    }
}

/// Makes the token of a URL and the parameters that carry its signature.
///
/// Fails with `ParseError` if the URL does not parse, if a parameter cannot
/// be appended, or if the text of the result does not begin with `https://`.
pub fn assemble(url: &str, params: &Vec<QueryParam>) -> (out: Result<String, Error>)
    ensures
        outcome(out) == assembled(url@, params_view(params@)),
{
    match parse_url(url) {
        Err(reason) => Err(Error::ParseError(reason)),
        Ok(mut parsed) => {
            if append_params(&mut parsed, params) {
                strip_scheme(url_as_str(&parsed))
            } else {
                Err(Error::ParseError("URL too long".to_owned()))
            }
        },
    }
}

/// Whether the parser keeps the URL of a request to connect: the text of
/// the parsed URL is that URL or, where the port is the one `https` stands
/// for, that URL with its port left out.
pub open spec fn kept_by_parser(parsed: Seq<char>, host: Seq<char>, port: u16, user: Seq<char>) -> bool {
    ||| parsed == connect_url(host, port, user)
    ||| port == HTTPS_PORT && parsed == portless_connect_url(host, user)
}

/// The token of a request to connect and the parameters that carry its
/// signature. The URL of the request is parsed and the parameters are
/// appended to its query. Where the parser keeps the URL and the parameters
/// follow its text, the token is the URL as it was built, without its
/// scheme and with its port, followed by what was appended. Else the token
/// is the text of the parsed URL with the parameters, without its scheme.
pub open spec fn connect_token(
    host: Seq<char>,
    port: u16,
    user: Seq<char>,
    params: Seq<(Seq<char>, Seq<char>)>,
) -> Result<Seq<char>, ErrorView> {
    match parsed_url(connect_url(host, port, user)) {
        Err(reason) => Err(ErrorView::ParseError(reason)),
        Ok(parsed) => match with_query(parsed, params) {
            None => Err(ErrorView::ParseError("URL too long"@)),
            Some(signed) => if kept_by_parser(parsed, host, port, user) && parsed.is_prefix_of(
                signed,
            ) {
                Ok(connect_url(host, port, user).skip(8) + signed.skip(parsed.len() as int))
            } else {
                without_scheme(signed)
            },
        },
    }
}

/// Makes the token of a request to connect and the parameters that carry
/// its signature.
///
/// Fails with `ParseError` if the URL of the request does not parse, if a
/// parameter cannot be appended, or if the parser gives the URL another
/// scheme.
pub fn assemble_connect(host: &str, port: u16, user: &str, params: &Vec<QueryParam>) -> (out:
    Result<String, Error>)
    ensures
        outcome(out) == connect_token(host@, port, user@, params_view(params@)),
{
    let url = build_connect_url(host, port, user);
    match parse_url(url.as_str()) {
        Err(reason) => Err(Error::ParseError(reason)),
        Ok(mut parsed) => {
            let before = url_as_str(&parsed).to_owned();
            if !append_params(&mut parsed, params) {
                return Err(Error::ParseError("URL too long".to_owned()));
            }
            let signed = url_as_str(&parsed);
            let kept = same_text(before.as_str(), url.as_str()) || (port == HTTPS_PORT
                && same_text(
                before.as_str(),
                build_portless_connect_url(host, user).as_str(),
            ));
            if kept && starts_with(signed, before.as_str()) {
                proof {
                    lemma_connect_url_has_scheme(host@, port, user@);
                }
                let built = url.as_str();
                let built_len = built.unicode_len();
                let signed_len = signed.unicode_len();
                let before_len = before.as_str().unicode_len();
                assert(built@.skip(8) =~= built@.subrange(8, built_len as int));
                assert(signed@.skip(before_len as int) =~= signed@.subrange(
                    before_len as int,
                    signed_len as int,
                ));
                let mut out = built.substring_char(8, built_len).to_owned();
                out.append(signed.substring_char(before_len, signed_len));
                Ok(out)
            } else {
                strip_scheme(signed)
            }
        },
    }
}

} // verus!
