//! Where the theme channel of a page is to be reached.
use vstd::prelude::*;

use crate::error::CodexError;
use crate::text::{chars_of, same_text, slice_chars, text_of};

verus! {

/// The parts of a channel's URL that say how and where it is reached.
#[derive(Debug)]
pub struct ChannelAddress {
    pub scheme: Option<String>,
    pub host: Option<String>,
    pub port: Option<u16>,
}

/// The text in an optional string.
pub open spec fn optional_text(text: Option<String>) -> Option<Seq<char>> {
    match text {
        Some(text) => Some(text@),
        None => None,
    }
}

/// The scheme, the host and the port of a URI.
pub open spec fn address_parts(address: ChannelAddress) -> (
    Option<Seq<char>>,
    Option<Seq<char>>,
    Option<u16>,
) {
    (optional_text(address.scheme), optional_text(address.host), address.port)
}

/// What `http::Uri` reads in a text: scheme, host and port, or the message of an error.
pub uninterp spec fn uri_parts(text: Seq<char>) -> Result<
    (Option<Seq<char>>, Option<Seq<char>>, Option<u16>),
    Seq<char>,
>;

/// `str::parse` to a `http::Uri`, and the scheme, host and port of the `Uri`.
#[verifier::external_body]
pub(crate) fn parse_uri(text: &str) -> (result: Result<ChannelAddress, String>)
    ensures
        match result {
            Ok(address) => uri_parts(text@) == Ok::<
                (Option<Seq<char>>, Option<Seq<char>>, Option<u16>),
                Seq<char>,
            >(address_parts(address)),
            Err(message) => uri_parts(text@) == Err::<
                (Option<Seq<char>>, Option<Seq<char>>, Option<u16>),
                Seq<char>,
            >(message@),
        },
{
    match text.parse::<tungstenite::http::Uri>() {
        Ok(uri) => Ok(ChannelAddress {
            scheme: uri.scheme_str().map(|scheme| scheme.to_owned()),
            host: uri.host().map(|host| host.to_owned()),
            port: uri.port_u16(),
        }),
        Err(error) => Err(error.to_string()),
    }
}

/// A text without the run of a character at its start.
pub open spec fn without_leading(text: Seq<char>, character: char) -> Seq<char>
    decreases text.len(),
{
    if text.len() > 0 && text[0] == character {
        without_leading(text.drop_first(), character)
    } else {
        text
    }
}

/// A text without the run of a character at its end.
pub open spec fn without_trailing(text: Seq<char>, character: char) -> Seq<char>
    decreases text.len(),
{
    if text.len() > 0 && text.last() == character {
        without_trailing(text.drop_last(), character)
    } else {
        text
    }
}

/// A host without the brackets round an IPv6 address.
pub open spec fn bare_host(host: Seq<char>) -> Seq<char> {
    without_trailing(without_leading(host, '['), ']')
}

fn strip_brackets(host: &str) -> (result: String)
    ensures
        result@ == bare_host(host@),
{
    let chars = chars_of(host);
    let mut start: usize = 0;
    assert(chars@.skip(0) =~= chars@);
    while start < chars.len() && chars[start] == '['
        invariant
            start <= chars@.len(),
            without_leading(chars@, '[') == without_leading(chars@.skip(start as int), '['),
        decreases chars@.len() - start,
    {
        assert(chars@.skip(start as int).drop_first() =~= chars@.skip(start + 1));
        start += 1;
    }
    let mut end: usize = chars.len();
    let ghost rest = chars@.skip(start as int);
    assert(rest =~= chars@.subrange(start as int, end as int));
    while end > start && chars[end - 1] == ']'
        invariant
            start <= end <= chars@.len(),
            without_trailing(rest, ']') == without_trailing(
                chars@.subrange(start as int, end as int),
                ']',
            ),
        decreases end,
    {
        assert(chars@.subrange(start as int, end as int).drop_last() =~= chars@.subrange(
            start as int,
            end - 1,
        ));
        end -= 1;
    }
    text_of(slice_chars(chars.as_slice(), start, end).as_slice())
}

/// Where a channel is to be reached, by the parts of its URL: the host and the port, or a message
/// on why the URL is refused.
pub open spec fn endpoint(
    parts: Result<(Option<Seq<char>>, Option<Seq<char>>, Option<u16>), Seq<char>>,
) -> Result<(Seq<char>, u16), Seq<char>> {
    match parts {
        Ok((scheme, host, port)) => if scheme != Some("ws"@) {
            Err("本地主题通道必须使用回环明文连接"@)
        } else {
            match host {
                Some(host) => Ok(
                    (
                        bare_host(host),
                        match port {
                            Some(port) => port,
                            None => 80,
                        },
                    ),
                ),
                None => Err("本地主题通道地址缺少主机"@),
            }
        },
        Err(message) => Err("本地主题通道地址无效："@ + message),
    }
}

/// Where a channel is to be reached, by the parts of its URL.
pub fn channel_endpoint(address: &ChannelAddress) -> (result: Result<(String, u16), CodexError>)
    ensures
        match result {
            Ok(found) => endpoint(Ok(address_parts(*address))) == Ok::<
                (Seq<char>, u16),
                Seq<char>,
            >((found.0@, found.1)),
            Err(error) => endpoint(Ok(address_parts(*address))) == Err::<
                (Seq<char>, u16),
                Seq<char>,
            >(error@),
        },
{
    let plain = match &address.scheme {
        Some(scheme) => same_text(scheme.as_str(), "ws"),
        None => false,
    };
    if !plain {
        return Err(CodexError::new("本地主题通道必须使用回环明文连接"));
    }
    match &address.host {
        Some(host) => {
            let port: u16 = match address.port {
                Some(port) => port,
                None => 80,
            };
            Ok((strip_brackets(host.as_str()), port))
        },
        None => Err(CodexError::new("本地主题通道地址缺少主机")),
    }
}

/// Where the channel with a URL is to be reached.
pub fn theme_channel_endpoint(websocket_url: &str) -> (result: Result<(String, u16), CodexError>)
    ensures
        match result {
            Ok(found) => endpoint(uri_parts(websocket_url@)) == Ok::<(Seq<char>, u16), Seq<char>>(
                (found.0@, found.1),
            ),
            Err(error) => endpoint(uri_parts(websocket_url@)) == Err::<
                (Seq<char>, u16),
                Seq<char>,
            >(error@),
        },
{
    match parse_uri(websocket_url) {
        Ok(address) => channel_endpoint(&address),
        Err(message) => Err(CodexError::detailed("本地主题通道地址无效：", message.as_str())),
    }
}

/// Admits a host only where it is an IP address, and a loopback one.
pub fn admit_host(loopback: Option<bool>) -> (result: Result<(), CodexError>)
    ensures
        match result {
            Ok(()) => loopback == Some(true),
            Err(error) => loopback != Some(true) && error@ == "本地主题通道必须使用回环地址"@,
        },
{
    match loopback {
        Some(true) => Ok(()),
        _ => Err(CodexError::new("本地主题通道必须使用回环地址")),
    }
}

proof fn lemma_bare_host(core: Seq<char>)
    requires
        core.len() > 0 ==> core[0] != '[' && core.last() != ']',
    ensures
        bare_host(core) == core,
        core.len() > 0 ==> bare_host(seq!['['] + core + seq![']']) == core,
{
    if core.len() > 0 {
        let bracketed = seq!['['] + core + seq![']'];
        reveal_with_fuel(without_leading, 2);
        reveal_with_fuel(without_trailing, 2);
        assert(bracketed.drop_first() =~= core + seq![']']);
        assert((core + seq![']']).drop_last() =~= core);
        assert((core + seq![']'])[0] == core[0]);
    }
}

/// A channel is reached at the host of its address, without the brackets round it, if there are
/// some, and at its port, or else at port 80.
pub proof fn channel_is_reached_at_its_host_and_port(
    core: Seq<char>,
    address: ChannelAddress,
    found: Result<(String, u16), CodexError>,
)
    requires
        call_ensures(channel_endpoint, (&address,), found),
        address.scheme is Some,
        address.scheme->0@ == "ws"@,
        address.host is Some,
        core.len() > 0,
        core[0] != '[',
        core.last() != ']',
        address.host->0@ == core || address.host->0@ == "["@ + core + "]"@,
    ensures
        found matches Ok(place) && place.0@ == core && (address.port is Some ==> place.1
            == address.port->0) && (address.port is None ==> place.1 == 80),
{
    reveal_strlit("[");
    reveal_strlit("]");
    assert("["@ =~= seq!['[']);
    assert("]"@ =~= seq![']']);
    lemma_bare_host(core);
}

/// A channel without the scheme of a plain connection is refused, and so is one without a host.
pub proof fn channel_needs_a_plain_scheme_and_a_host(
    address: ChannelAddress,
    found: Result<(String, u16), CodexError>,
)
    requires
        call_ensures(channel_endpoint, (&address,), found),
    ensures
        address.scheme is None || address.scheme->0@ != "ws"@ ==> found is Err && found->Err_0@
            == "本地主题通道必须使用回环明文连接"@,
        address.scheme is Some && address.scheme->0@ == "ws"@ && address.host is None ==> found
            is Err && found->Err_0@ == "本地主题通道地址缺少主机"@,
        address.scheme is Some && address.scheme->0@ == "ws"@ && address.host is Some ==> found
            is Ok,
{
}

/// A URL is reached where the parts that are read in it say, and one that is not read is refused with
/// the message of its error.
pub proof fn url_is_reached_by_its_parts(
    websocket_url: &str,
    address: ChannelAddress,
    found: Result<(String, u16), CodexError>,
    of_parts: Result<(String, u16), CodexError>,
)
    requires
        call_ensures(theme_channel_endpoint, (websocket_url,), found),
        call_ensures(channel_endpoint, (&address,), of_parts),
    ensures
        uri_parts(websocket_url@) is Err ==> found is Err && found->Err_0@
            == "本地主题通道地址无效："@ + uri_parts(websocket_url@)->Err_0,
        uri_parts(websocket_url@) == Ok::<
            (Option<Seq<char>>, Option<Seq<char>>, Option<u16>),
            Seq<char>,
        >(address_parts(address)) ==> match (found, of_parts) {
            (Ok(place), Ok(other)) => place.0@ == other.0@ && place.1 == other.1,
            (Err(error), Err(other)) => error@ == other@,
            _ => false,
        },
{
}

/// A host passes only where it is an IP address that is a loopback address.
pub proof fn only_loopback_hosts_pass(loopback: Option<bool>, admitted: Result<(), CodexError>)
    requires
        call_ensures(admit_host, (loopback,), admitted),
    ensures
        loopback is Some && loopback->0 <==> admitted is Ok,
        admitted matches Err(error) ==> error@ == "本地主题通道必须使用回环地址"@,
{
}

/// So many copies of a character.
pub open spec fn copies(character: char, count: nat) -> Seq<char> {
    Seq::new(count, |i: int| character)
}

proof fn lemma_without_leading(character: char, count: nat, rest: Seq<char>)
    requires
        rest.len() > 0 ==> rest[0] != character,
    ensures
        without_leading(copies(character, count) + rest, character) == rest,
    decreases count,
{
    let text = copies(character, count) + rest;
    if count == 0 {
        assert(text =~= rest);
    } else {
        assert(text[0] == character);
        assert(text.drop_first() =~= copies(character, (count - 1) as nat) + rest);
        lemma_without_leading(character, (count - 1) as nat, rest);
    }
}

proof fn lemma_without_trailing(rest: Seq<char>, character: char, count: nat)
    requires
        rest.len() > 0 ==> rest.last() != character,
    ensures
        without_trailing(rest + copies(character, count), character) == rest,
    decreases count,
{
    let text = rest + copies(character, count);
    if count == 0 {
        assert(text =~= rest);
    } else {
        assert(text.last() == character);
        assert(text.drop_last() =~= rest + copies(character, (count - 1) as nat));
        lemma_without_trailing(rest, character, (count - 1) as nat);
    }
}

/// However many brackets stand round a host, none of them is part of it.
pub proof fn host_loses_all_its_brackets(
    opening: nat,
    core: Seq<char>,
    closing: nat,
    address: ChannelAddress,
    found: Result<(String, u16), CodexError>,
)
    requires
        call_ensures(channel_endpoint, (&address,), found),
        address.scheme is Some,
        address.scheme->0@ == "ws"@,
        address.host is Some,
        core.len() > 0,
        core[0] != '[',
        core.last() != ']',
        address.host->0@ == copies('[', opening) + core + copies(']', closing),
    ensures
        found matches Ok(place) && place.0@ == core,
{
    let tail = core + copies(']', closing);
    assert(address.host->0@ =~= copies('[', opening) + tail);
    lemma_without_leading('[', opening, tail);
    lemma_without_trailing(core, ']', closing);
}

} // verus!
