//! The text that goes over the socket: the address to connect to and the
//! control messages of a session.

use crate::server::ServerConfig;
use vstd::prelude::*;
use vstd::string::StringExecFns;

verus! {

/// Why a URL is refused.
#[verifier::external_type_specification]
#[verifier::external_body]
pub struct ExParseError(url::ParseError);

/// The endpoint and token of a configuration do not make a URL.
#[derive(Clone, Copy, Debug, PartialEq, Eq, Structural)]
pub struct InvalidEndpoint;

/// The URL that `url::Url::parse` reads from `input`, written out again in
/// its normal form; `None` where it reads none.
pub uninterp spec fn parsed_url(input: Seq<char>) -> Option<Seq<char>>;

/// `url::Url::parse`, followed by the conversion of the URL to its text: the
/// result depends on the input alone and is named by [`parsed_url`].
#[verifier::external_body]
fn parse_url(input: &str) -> (parsed: Result<String, url::ParseError>)
    ensures
        match parsed {
            Ok(text) => parsed_url(input@) == Some(text@),
            Err(_) => parsed_url(input@) is None,
        },
{
    url::Url::parse(input).map(String::from)
}

/// The address as the configuration gives it: the endpoint, then the token
/// as the query.
pub open spec fn address_text(endpoint: Seq<char>, token: Seq<char>) -> Seq<char> {
    endpoint + "?token="@ + token
}

/// The subscription request of the connection `id` for `topic`.
pub open spec fn subscribe_text(id: Seq<char>, topic: Seq<char>) -> Seq<char> {
    "{\"id\":\""@ + id + "\",\"type\":\"subscribe\",\"topic\":\""@ + topic
        + "\",\"response\":true}"@
}

/// The ping of the connection `id`.
pub open spec fn ping_text(id: Seq<char>) -> Seq<char> {
    "{\"id\":\""@ + id + "\",\"type\":\"ping\"}"@
}

/// What [`checked_address`] returns for each outcome of reading the address
/// as a URL.
pub open spec fn address_result(parsed: Option<Seq<char>>, address: Result<
    String,
    InvalidEndpoint,
>) -> bool {
    match parsed {
        Some(text) => address is Ok && address->Ok_0@ == text,
        None => address == Err::<String, InvalidEndpoint>(InvalidEndpoint),
    }
}

/// The address as the configuration gives it.
pub fn address(cfg: &ServerConfig) -> (text: String)
    ensures
        text@ == address_text(cfg.endpoint@, cfg.token@),
{
    let mut text = cfg.endpoint.clone();
    text.append("?token=");
    text.append(cfg.token.as_str());
    text
}

/// Turns what reading the address gave into the address to connect to, or
/// into the error of this library.
pub fn checked_address(parsed: Result<String, url::ParseError>) -> (address: Result<
    String,
    InvalidEndpoint,
>)
    ensures
        match parsed {
            Ok(text) => address is Ok && address->Ok_0@ == text@,
            Err(_) => address == Err::<String, InvalidEndpoint>(InvalidEndpoint),
        },
{
    match parsed {
        Ok(text) => Ok(text),
        Err(_) => Err(InvalidEndpoint),
    }
}

/// The address to connect to: the configuration's address, read as a URL
/// and written in its normal form. An error where it is no URL.
pub fn connection_url(cfg: &ServerConfig) -> (url: Result<String, InvalidEndpoint>)
    ensures
        address_result(parsed_url(address_text(cfg.endpoint@, cfg.token@)), url),
{
    let text = address(cfg);
    checked_address(parse_url(text.as_str()))
}

/// The subscription request of the connection `id` for `topic`.
pub fn subscribe_message(id: &str, topic: &str) -> (text: String)
    ensures
        text@ == subscribe_text(id@, topic@),
{
    let mut text = String::from_str("{\"id\":\"");
    text.append(id);
    text.append("\",\"type\":\"subscribe\",\"topic\":\"");
    text.append(topic);
    text.append("\",\"response\":true}");
    text
}

/// The ping of the connection `id`.
pub fn ping_message(id: &str) -> (text: String)
    ensures
        text@ == ping_text(id@),
{
    let mut text = String::from_str("{\"id\":\"");
    text.append(id);
    text.append("\",\"type\":\"ping\"}");
    text
}

} // verus!
