//! Answers to the HTTP requests with which the page fetches the assets of a theme.
use vstd::prelude::*;
use vstd::utf8::{
    decode_first_scalar, decode_utf8, encode_utf8, encode_utf8_decode_utf8,
    encode_utf8_valid_utf8, is_ascii_chars, is_ascii_chars_encode_utf8, pop_first_scalar,
    valid_first_scalar, valid_utf8,
};

use crate::asset::{
    asset_route, asset_routes_are_distinct, lemma_index_of, revoke_route, AssetTable,
    ThemeRuntimeAsset,
};
use crate::bytes::decode_text;
use crate::decimal::{decimal, decimal_chars, is_digit, lemma_decimal};
use crate::token::{hex_text, lemma_hex_text};
use crate::text::{
    all_white, chars_of, find_bytes, first_occurrence, header_field, is_white, is_word,
    lemma_first_occurrence_front, lemma_header, lemma_no_occurrence, lemma_occurs_behind,
    lemma_pieces_front, lemma_pieces_step, lemma_some_occurrence, lemma_trimmed_core,
    lemma_trimmed_word, lemma_word_length, lemma_words_front, lemma_words_last, lemma_words_step,
    lower_char, lower_chars, lowered, occurs_at, pieces, push_text, same_chars, same_text,
    split_header, split_pieces, split_words, text_of, trim, trimmed, views,
    word_length, words,
};

verus! {

/// The number of bytes that the header of a request may have.
pub const MAX_REQUEST_BYTES: usize = 8192;

/// The number of requests that are answered at the same time.
pub const MAX_THEME_ASSET_CONNECTIONS: usize = 100;

/// An answer to a request.
#[derive(Clone, Copy, Debug, PartialEq, Eq, Structural)]
pub enum AssetReply {
    BadRequest,
    NotFound,
    HeaderTooLarge,
    Unavailable,
    /// The assets are to be served no longer. The answer follows once that is so.
    Revoked,
    Asset { index: usize, body: bool },
}

/// What to do about a request next.
#[derive(Clone, Copy, Debug, PartialEq, Eq, Structural)]
pub enum RequestStep {
    ReadMore,
    Close,
    Answer(AssetReply),
}

/// The end of a line.
pub open spec fn line_break() -> Seq<char> {
    seq!['\r', '\n']
}

/// The end of a header.
pub open spec fn header_break() -> Seq<u8> {
    seq![13u8, 10u8, 13u8, 10u8]
}

/// The method, the path and the version that the first line of a request names.
pub open spec fn request_line(text: Seq<char>) -> Option<(Seq<char>, Seq<char>, Seq<char>)> {
    let parts = words(pieces(text, line_break())[0]);
    if parts.len() < 3 {
        None
    } else {
        Some((parts[0], parts[1], parts[2]))
    }
}

/// Whether a line is a header that names a host.
pub open spec fn names_host(line: Seq<char>, address: Seq<char>) -> bool {
    match header_field(line) {
        Some((name, value)) => lowered(name) == "host"@ && trimmed(value) == address,
        None => false,
    }
}

/// Whether a line behind the first one names a host.
pub open spec fn request_names_host(text: Seq<char>, address: Seq<char>) -> bool {
    exists|i: int|
        1 <= i < pieces(text, line_break()).len() && names_host(
            #[trigger] pieces(text, line_break())[i],
            address,
        )
}

/// The answer to a request for a path that is otherwise in order.
pub open spec fn reply_for_path(table: AssetTable, path: Seq<char>, body: bool) -> AssetReply {
    if path == revoke_route(table.token@) {
        AssetReply::Revoked
    } else {
        match table.index_of(path) {
            Some(index) => AssetReply::Asset { index: index as usize, body },
            None => AssetReply::NotFound,
        }
    }
}

/// The answer to a request.
pub open spec fn reply_to_text(table: AssetTable, text: Seq<char>) -> AssetReply {
    match request_line(text) {
        Some((method, path, version)) => if method != "GET"@ && method != "HEAD"@ || version
            != "HTTP/1.1"@ || !request_names_host(text, table.address@) {
            AssetReply::NotFound
        } else {
            reply_for_path(table, path, method == "GET"@)
        },
        None => AssetReply::BadRequest,
    }
}

/// The answer to the bytes of a request.
pub open spec fn reply_to_bytes(table: AssetTable, bytes: Seq<u8>) -> AssetReply {
    if valid_utf8(bytes) {
        reply_to_text(table, decode_utf8(bytes))
    } else {
        AssetReply::BadRequest
    }
}

fn finds_host(lines: &Vec<Vec<char>>, address: &str) -> (result: bool)
    ensures
        result == exists|i: int|
            1 <= i < lines@.len() && names_host(#[trigger] views(lines@)[i], address@),
{
    let expected = chars_of(address);
    let host = chars_of("host");
    let mut i: usize = 1;
    while i < lines.len()
        invariant
            1 <= i,
            expected@ == address@,
            host@ == "host"@,
            forall|j: int| 1 <= j < i && j < lines@.len() ==> !names_host(
                #[trigger] views(lines@)[j],
                address@,
            ),
        decreases lines@.len() - i,
    {
        assert(views(lines@)[i as int] == lines@[i as int]@);
        if let Some((name, value)) = split_header(lines[i].as_slice()) {
            if same_chars(lower_chars(name.as_slice()).as_slice(), host.as_slice()) && same_chars(
                trim(value.as_slice()).as_slice(),
                expected.as_slice(),
            ) {
                return true;
            }
        }
        i += 1;
    }
    false
}

/// The answer to the text of a request.
pub fn answer_text(table: &AssetTable, request: &str) -> (result: AssetReply)
    ensures
        result == reply_to_text(*table, request@),
        reply_fits(*table, result),
{
    let separator: Vec<char> = vec!['\r', '\n'];
    assert(separator@ =~= line_break());
    let lines = split_pieces(chars_of(request).as_slice(), separator.as_slice());
    assert(views(lines@).len() > 0);
    assert(views(lines@)[0] == lines@[0]@);
    let parts = split_words(lines[0].as_slice());
    if parts.len() < 3 {
        return AssetReply::BadRequest;
    }
    assert(views(parts@)[0] == parts@[0]@);
    assert(views(parts@)[1] == parts@[1]@);
    assert(views(parts@)[2] == parts@[2]@);
    let method = text_of(parts[0].as_slice());
    let path = text_of(parts[1].as_slice());
    let version = text_of(parts[2].as_slice());
    let get = same_text(method.as_str(), "GET");
    if !get && !same_text(method.as_str(), "HEAD") || !same_text(version.as_str(), "HTTP/1.1") {
        return AssetReply::NotFound;
    }
    let valid_host = finds_host(&lines, table.address.as_str());
    assert(valid_host == request_names_host(request@, table.address@));
    if !valid_host {
        return AssetReply::NotFound;
    }
    if same_text(path.as_str(), table.revoke_path().as_str()) {
        return AssetReply::Revoked;
    }
    match table.find_route(path.as_str()) {
        Some(index) => AssetReply::Asset { index, body: get },
        None => AssetReply::NotFound,
    }
}

/// The answer to the bytes of a request whose header is complete.
pub fn answer_bytes(table: &AssetTable, request: &[u8]) -> (result: AssetReply)
    ensures
        result == reply_to_bytes(*table, request@),
        reply_fits(*table, result),
{
    match decode_text(request) {
        Ok(text) => answer_text(table, text.as_str()),
        Err(_) => AssetReply::BadRequest,
    }
}

/// What to do about a request of which some bytes have come. A client that has stopped sending
/// gets no answer; a header that is complete gets the answer to what has come; one that fills the
/// buffer before it is complete is refused.
pub open spec fn request_step(table: AssetTable, received: Seq<u8>, ended: bool) -> RequestStep {
    if ended {
        RequestStep::Close
    } else if first_occurrence(received, header_break()) is Some {
        RequestStep::Answer(reply_to_bytes(table, received))
    } else if received.len() >= MAX_REQUEST_BYTES {
        RequestStep::Answer(AssetReply::HeaderTooLarge)
    } else {
        RequestStep::ReadMore
    }
}

/// What to do about a request of which some bytes have come.
pub fn serve_theme_asset_request(table: &AssetTable, received: &[u8], ended: bool) -> (result:
    RequestStep)
    ensures
        result == request_step(*table, received@, ended),
        result matches RequestStep::Answer(reply) ==> reply_fits(*table, reply),
{
    if ended {
        return RequestStep::Close;
    }
    let pattern: Vec<u8> = vec![13u8, 10u8, 13u8, 10u8];
    assert(pattern@ =~= header_break());
    match find_bytes(received, pattern.as_slice()) {
        Some(_) => RequestStep::Answer(answer_bytes(table, received)),
        None => {
            if received.len() >= MAX_REQUEST_BYTES {
                RequestStep::Answer(AssetReply::HeaderTooLarge)
            } else {
                RequestStep::ReadMore
            }
        },
    }
}

/// What is answered to a new connection before anything is read from it: nothing, unless as many
/// requests as are answered at the same time are under way.
pub fn admit_connection(active: usize) -> (result: Option<AssetReply>)
    ensures
        result == if active >= MAX_THEME_ASSET_CONNECTIONS {
            Some(AssetReply::Unavailable)
        } else {
            None
        },
{
    if active >= MAX_THEME_ASSET_CONNECTIONS {
        Some(AssetReply::Unavailable)
    } else {
        None
    }
}

/// The head of an answer without a body.
pub open spec fn empty_head(status: nat, reason: Seq<char>) -> Seq<char> {
    "HTTP/1.1 "@ + decimal(status) + seq![' '] + reason
        + "\r\nContent-Length: 0\r\nCache-Control: no-store\r\nConnection: close\r\n\r\n"@
}

/// The head of an answer that carries an asset.
pub open spec fn asset_head(asset: ThemeRuntimeAsset) -> Seq<char> {
    "HTTP/1.1 200 OK\r\nContent-Type: "@ + asset.mime@ + "\r\nContent-Length: "@ + decimal(
        asset.source@.len(),
    )
        + "\r\nCache-Control: private, no-store\r\nCross-Origin-Resource-Policy: cross-origin\r\nX-Content-Type-Options: nosniff\r\nContent-Security-Policy: default-src 'none'; style-src 'unsafe-inline'; img-src data:\r\nConnection: close\r\n\r\n"@
}

/// The head of an answer.
pub open spec fn reply_head(table: AssetTable, reply: AssetReply) -> Seq<char> {
    match reply {
        AssetReply::BadRequest => empty_head(400, "Bad Request"@),
        AssetReply::NotFound => empty_head(404, "Not Found"@),
        AssetReply::HeaderTooLarge => empty_head(431, "Request Header Fields Too Large"@),
        AssetReply::Unavailable => empty_head(503, "Service Unavailable"@),
        AssetReply::Revoked => empty_head(204, "No Content"@),
        AssetReply::Asset { index, .. } => asset_head(table.assets@[index as int]),
    }
}

/// Whether an answer names an asset only where the table has it.
pub open spec fn reply_fits(table: AssetTable, reply: AssetReply) -> bool {
    reply matches AssetReply::Asset { index, .. } ==> index < table.assets@.len()
}

/// The head of an answer without a body.
pub fn theme_asset_error(status: u16, reason: &str) -> (result: String)
    ensures
        result@ == empty_head(status as nat, reason@),
{
    let mut head = chars_of("HTTP/1.1 ");
    let mut digits = decimal_chars(status as u128);
    head.append(&mut digits);
    head.push(' ');
    push_text(&mut head, reason);
    push_text(
        &mut head,
        "\r\nContent-Length: 0\r\nCache-Control: no-store\r\nConnection: close\r\n\r\n",
    );
    assert(head@ =~= empty_head(status as nat, reason@));
    text_of(head.as_slice())
}

fn theme_asset_head(asset: &ThemeRuntimeAsset) -> (result: String)
    ensures
        result@ == asset_head(*asset),
{
    let mut head = chars_of("HTTP/1.1 200 OK\r\nContent-Type: ");
    push_text(&mut head, asset.mime.as_str());
    push_text(&mut head, "\r\nContent-Length: ");
    let mut digits = decimal_chars(asset.source.len() as u128);
    head.append(&mut digits);
    push_text(
        &mut head,
        "\r\nCache-Control: private, no-store\r\nCross-Origin-Resource-Policy: cross-origin\r\nX-Content-Type-Options: nosniff\r\nContent-Security-Policy: default-src 'none'; style-src 'unsafe-inline'; img-src data:\r\nConnection: close\r\n\r\n",
    );
    assert(head@ =~= asset_head(*asset));
    text_of(head.as_slice())
}

/// The head of an answer.
pub fn write_reply_head(table: &AssetTable, reply: AssetReply) -> (result: String)
    requires
        reply_fits(*table, reply),
    ensures
        result@ == reply_head(*table, reply),
{
    match reply {
        AssetReply::BadRequest => theme_asset_error(400, "Bad Request"),
        AssetReply::NotFound => theme_asset_error(404, "Not Found"),
        AssetReply::HeaderTooLarge => theme_asset_error(431, "Request Header Fields Too Large"),
        AssetReply::Unavailable => theme_asset_error(503, "Service Unavailable"),
        AssetReply::Revoked => theme_asset_error(204, "No Content"),
        AssetReply::Asset { index, .. } => theme_asset_head(&table.assets[index]),
    }
}

/// The body of an answer, where it has one: all bytes of the asset.
pub fn reply_body(table: &AssetTable, reply: AssetReply) -> (result: Option<&Vec<u8>>)
    requires
        reply_fits(*table, reply),
    ensures
        match reply {
            AssetReply::Asset { index, body: true } => result == Some(
                &table.assets@[index as int].source,
            ),
            _ => result is None,
        },
{
    match reply {
        AssetReply::Asset { index, body: true } => Some(&table.assets[index].source),
        _ => None,
    }
}

/// The request with which a client fetches a path from an address, with more header lines behind
/// the one that names the host.
pub open spec fn fetch_request(
    method: Seq<char>,
    path: Seq<char>,
    address: Seq<char>,
    more: Seq<char>,
) -> Seq<char> {
    method + seq![' '] + path + " HTTP/1.1\r\nHost: "@ + address + line_break() + more
        + line_break()
}

/// Whether a text is made of whole lines.
pub open spec fn ends_with_line(text: Seq<char>) -> bool {
    text.len() == 0 || text.len() >= 2 && text.skip(text.len() - 2) == line_break()
}

proof fn lemma_word_has_no_return(word: Seq<char>)
    requires
        is_word(word),
    ensures
        !word.contains('\r'),
{
    if word.contains('\r') {
        let i = choose|i: int| 0 <= i < word.len() && word[i] == '\r';
        assert(!is_white(word[i]));
    }
}

#[verifier::opaque]
spec fn first_line(method: Seq<char>, path: Seq<char>) -> Seq<char> {
    method + seq![' '] + (path + seq![' '] + "HTTP/1.1"@)
}

#[verifier::opaque]
spec fn host_line(address: Seq<char>) -> Seq<char> {
    seq!['H', 'o', 's', 't'] + seq![':'] + (seq![' '] + address)
}

proof fn lemma_first_line(method: Seq<char>, path: Seq<char>)
    requires
        is_word(method),
        is_word(path),
    ensures
        words(first_line(method, path)) == seq![method, path, "HTTP/1.1"@],
        !first_line(method, path).contains('\r'),
{
    reveal(first_line);
    reveal_strlit("HTTP/1.1");
    let version = "HTTP/1.1"@;
    let first = first_line(method, path);
    assert(is_word(version));
    lemma_words_step(method, path + seq![' '] + version);
    lemma_words_step(path, version);
    lemma_words_last(version);
    assert(words(first) =~= seq![method, path, version]);
    lemma_word_has_no_return(method);
    lemma_word_has_no_return(path);
    lemma_word_has_no_return(version);
    if first.contains('\r') {
        let i = choose|i: int| 0 <= i < first.len() && first[i] == '\r';
        if i < method.len() {
            assert(method[i] == '\r');
        } else if method.len() < i < method.len() + 1 + path.len() {
            assert(path[i - method.len() - 1] == '\r');
        } else if i > method.len() + 1 + path.len() {
            assert(version[i - method.len() - path.len() - 2] == '\r');
        }
    }
}

proof fn lemma_host_line(address: Seq<char>)
    requires
        is_word(address),
    ensures
        names_host(host_line(address), address),
        !host_line(address).contains('\r'),
{
    reveal(host_line);
    let name = seq!['H', 'o', 's', 't'];
    let line = host_line(address);
    lemma_word_has_no_return(address);
    if line.contains('\r') {
        let i = choose|i: int| 0 <= i < line.len() && line[i] == '\r';
        if i >= 6 {
            assert(address[i - 6] == '\r');
        }
    }
    lemma_occurs_behind(name, seq![':'], seq![' '] + address);
    assert(line.take(4) =~= name);
    assert(line.skip(5) =~= seq![' '] + address);
    lemma_trimmed_word(address);
    reveal_strlit("host");
    assert(lowered(name) =~= "host"@);
}

proof fn lemma_request_lines(
    method: Seq<char>,
    path: Seq<char>,
    address: Seq<char>,
    more: Seq<char>,
)
    ensures
        fetch_request(method, path, address, more) == first_line(method, path) + line_break() + (
        host_line(address) + line_break() + (more + line_break())),
{
    reveal(first_line);
    reveal(host_line);
    reveal_strlit("HTTP/1.1");
    reveal_strlit(" HTTP/1.1\r\nHost: ");
    assert(" HTTP/1.1\r\nHost: "@ =~= seq![' '] + "HTTP/1.1"@ + line_break() + seq![
        'H',
        'o',
        's',
        't',
    ] + seq![':'] + seq![' ']);
    assert(fetch_request(method, path, address, more) =~= first_line(method, path) + line_break()
        + (host_line(address) + line_break() + (more + line_break())));
}

proof fn lemma_fetch_request(
    method: Seq<char>,
    path: Seq<char>,
    address: Seq<char>,
    more: Seq<char>,
)
    requires
        is_word(method),
        is_word(path),
        is_word(address),
    ensures
        request_line(fetch_request(method, path, address, more)) == Some(
            (method, path, "HTTP/1.1"@),
        ),
        request_names_host(fetch_request(method, path, address, more), address),
{
    lemma_request_lines(method, path, address, more);
    lemma_first_line(method, path);
    lemma_host_line(address);
    lemma_first_lines(
        fetch_request(method, path, address, more),
        first_line(method, path),
        host_line(address),
        more + line_break(),
    );
}

proof fn lemma_first_lines(
    text: Seq<char>,
    first: Seq<char>,
    second: Seq<char>,
    rest: Seq<char>,
)
    requires
        text == first + line_break() + (second + line_break() + rest),
        !first.contains('\r'),
        !second.contains('\r'),
    ensures
        pieces(text, line_break()).len() >= 2,
        pieces(text, line_break())[0] == first,
        pieces(text, line_break())[1] == second,
{
    lemma_pieces_step(first, line_break(), second + line_break() + rest);
    lemma_pieces_step(second, line_break(), rest);
}

/// Whether a request for a path under a method gets a given answer, as text and as soon as its
/// bytes have come, whatever header lines stand behind the one that names the host.
pub open spec fn fetch_gets(
    table: AssetTable,
    method: Seq<char>,
    path: Seq<char>,
    more: Seq<char>,
    reply: AssetReply,
) -> bool {
    let request = fetch_request(method, path, table.address@, more);
    &&& reply_to_text(table, request) == reply
    &&& request_step(table, encode_utf8(request), false) == RequestStep::Answer(reply)
}

proof fn lemma_encode_concat(left: Seq<char>, right: Seq<char>)
    ensures
        encode_utf8(left + right) == encode_utf8(left) + encode_utf8(right),
    decreases left.len(),
{
    if left.len() == 0 {
        assert(left + right =~= right);
        assert(encode_utf8(left) + encode_utf8(right) =~= encode_utf8(right));
    } else {
        lemma_encode_concat(left.drop_first(), right);
        assert((left + right).drop_first() =~= left.drop_first() + right);
        assert(encode_utf8(left + right) =~= encode_utf8(left) + encode_utf8(right));
    }
}

proof fn lemma_header_is_complete(request: Seq<char>)
    requires
        request.len() >= 4,
        request.skip(request.len() - 4) == line_break() + line_break(),
    ensures
        first_occurrence(encode_utf8(request), header_break()) is Some,
{
    let front = request.take(request.len() - 4);
    let end = line_break() + line_break();
    assert(request =~= front + end);
    lemma_encode_concat(front, end);
    assert(is_ascii_chars(end));
    is_ascii_chars_encode_utf8(end);
    let bytes = encode_utf8(request);
    let at = encode_utf8(front).len() as int;
    assert(encode_utf8(end)[0] == end[0] as u8);
    assert(encode_utf8(end)[1] == end[1] as u8);
    assert(encode_utf8(end)[2] == end[2] as u8);
    assert(encode_utf8(end)[3] == end[3] as u8);
    assert(bytes.subrange(at, at + 4) =~= header_break());
    lemma_some_occurrence(bytes, header_break(), at);
}

proof fn lemma_fetch_gets(
    table: AssetTable,
    method: Seq<char>,
    path: Seq<char>,
    more: Seq<char>,
)
    requires
        method == "GET"@ || method == "HEAD"@,
        is_word(path),
        is_word(table.address@),
        ends_with_line(more),
    ensures
        fetch_gets(table, method, path, more, reply_for_path(table, path, method == "GET"@)),
{
    let request = fetch_request(method, path, table.address@, more);
    lemma_request_ends(method, path, table.address@, more);
    lemma_methods();
    lemma_fetch_request(method, path, table.address@, more);
    assert(valid_utf8(encode_utf8(request)) && decode_utf8(encode_utf8(request)) == request) by {
        encode_utf8_valid_utf8(request);
        encode_utf8_decode_utf8(request);
    }
}

proof fn lemma_request_ends(
    method: Seq<char>,
    path: Seq<char>,
    address: Seq<char>,
    more: Seq<char>,
)
    requires
        ends_with_line(more),
    ensures
        first_occurrence(
            encode_utf8(fetch_request(method, path, address, more)),
            header_break(),
        ) is Some,
{
    let request = fetch_request(method, path, address, more);
    if more.len() > 0 {
        assert(request.skip(request.len() - 4) =~= more.skip(more.len() - 2) + line_break());
    } else {
        assert(request.skip(request.len() - 4) =~= line_break() + line_break());
    }
    lemma_header_is_complete(request);
}

proof fn lemma_path(table: AssetTable, token_bytes: Seq<u8>, tail: Seq<char>)
    requires
        table.token@ == hex_text(token_bytes),
        forall|i: int| 0 <= i < tail.len() ==> !is_white(#[trigger] tail[i]),
    ensures
        is_word(seq!['/'] + table.token@ + tail),
{
    lemma_hex_text(token_bytes);
    let path = seq!['/'] + table.token@ + tail;
    assert forall|i: int| 0 <= i < path.len() implies !is_white(#[trigger] path[i]) by {
        if 0 < i <= table.token@.len() {
            assert(path[i] == hex_text(token_bytes)[i - 1]);
        } else if i > table.token@.len() {
            assert(path[i] == tail[i - 1 - table.token@.len()]);
        }
    }
}

/// The URL of an asset serves that asset: a `GET` all of it, a `HEAD` its head alone.
pub proof fn asset_url_serves_the_asset(
    table: AssetTable,
    address: Seq<char>,
    token_bytes: Seq<u8>,
    assets: Seq<ThemeRuntimeAsset>,
    index: usize,
    more: Seq<char>,
)
    requires
        table.serves(address, token_bytes, assets),
        is_word(address),
        index < table.assets@.len(),
        ends_with_line(more),
    ensures
        fetch_gets(
            table,
            "GET"@,
            asset_route(table.token@, index as nat),
            more,
            AssetReply::Asset { index, body: true },
        ),
        fetch_gets(
            table,
            "HEAD"@,
            asset_route(table.token@, index as nat),
            more,
            AssetReply::Asset { index, body: false },
        ),
{
    let path = asset_route(table.token@, index as nat);
    let tail = seq!['/'] + decimal(index as nat);
    lemma_decimal(index as nat);
    assert forall|i: int| 0 <= i < tail.len() implies !is_white(#[trigger] tail[i]) by {
        if i > 0 {
            assert(is_digit(decimal(index as nat)[i - 1]));
        }
    }
    assert(path =~= seq!['/'] + table.token@ + tail);
    lemma_path(table, token_bytes, tail);
    asset_routes_are_distinct(table.token@, index as nat, index as nat);
    lemma_index_of(table, index as int);
    lemma_methods();
    lemma_fetch_gets(table, "GET"@, path, more);
    lemma_fetch_gets(table, "HEAD"@, path, more);
}

/// The URL that revokes the assets does so.
pub proof fn revoke_url_revokes_the_assets(
    table: AssetTable,
    address: Seq<char>,
    token_bytes: Seq<u8>,
    assets: Seq<ThemeRuntimeAsset>,
    more: Seq<char>,
)
    requires
        table.serves(address, token_bytes, assets),
        is_word(address),
        ends_with_line(more),
    ensures
        fetch_gets(table, "GET"@, revoke_route(table.token@), more, AssetReply::Revoked),
        fetch_gets(table, "HEAD"@, revoke_route(table.token@), more, AssetReply::Revoked),
{
    let path = revoke_route(table.token@);
    reveal_strlit("/revoke");
    lemma_path(table, token_bytes, "/revoke"@);
    lemma_fetch_gets(table, "GET"@, path, more);
    lemma_fetch_gets(table, "HEAD"@, path, more);
}

proof fn lemma_methods()
    ensures
        is_word("GET"@),
        is_word("HEAD"@),
        "GET"@ != "HEAD"@,
{
    reveal_strlit("GET");
    reveal_strlit("HEAD");
}

/// No request gets an asset, or revokes the assets, but one that names the address of the table as
/// its host and a path under the token of the table.
pub proof fn nothing_is_served_outside_the_session(
    table: AssetTable,
    received: Seq<u8>,
    path: Seq<char>,
)
    requires
        !request_names_host(decode_utf8(received), table.address@) || (request_line(
            decode_utf8(received),
        ) matches Some((_, requested, _)) && requested == path && !(seq!['/'] + table.token@
            + seq!['/']).is_prefix_of(path)),
    ensures
        reply_to_bytes(table, received) == AssetReply::BadRequest || reply_to_bytes(table, received)
            == AssetReply::NotFound,
{
    let start = seq!['/'] + table.token@ + seq!['/'];
    reveal_strlit("/revoke");
    assert(start =~= revoke_route(table.token@).subrange(0, start.len() as int));
    assert forall|index: int|
        start.is_prefix_of(#[trigger] asset_route(table.token@, index as nat)) by {
        assert(start =~= asset_route(table.token@, index as nat).subrange(0, start.len() as int));
    }
}

/// The bytes of an answer behind its head.
pub open spec fn response_body(table: AssetTable, reply: AssetReply) -> Seq<u8> {
    match reply {
        AssetReply::Asset { index, body: true } => table.assets@[index as int].source@,
        _ => Seq::empty(),
    }
}

/// The bytes of an answer.
pub open spec fn response_bytes(table: AssetTable, reply: AssetReply) -> Seq<u8> {
    encode_utf8(reply_head(table, reply)) + response_body(table, reply)
}

proof fn lemma_ascii_front(front: Seq<char>, rest: Seq<u8>)
    requires
        is_ascii_chars(front),
    ensures
        valid_utf8(encode_utf8(front) + rest) == valid_utf8(rest),
        valid_utf8(rest) ==> decode_utf8(encode_utf8(front) + rest) == front + decode_utf8(rest),
    decreases front.len(),
{
    is_ascii_chars_encode_utf8(front);
    let bytes = encode_utf8(front) + rest;
    if front.len() == 0 {
        assert(bytes =~= rest);
        assert(front + decode_utf8(rest) =~= decode_utf8(rest));
    } else {
        let behind = front.drop_first();
        assert forall|i: int| 0 <= i < behind.len() implies '\0' <= #[trigger] behind[i]
            <= '\u{7f}' by {
            assert(behind[i] == front[i + 1]);
        }
        lemma_ascii_front(behind, rest);
        is_ascii_chars_encode_utf8(behind);
        let byte = bytes[0];
        assert(byte == front[0] as u8);
        assert('\0' <= front[0] <= '\u{7f}');
        assert(byte & 0x7F == byte) by (bit_vector)
            requires
                byte <= 0x7F,
        ;
        assert(pop_first_scalar(bytes) =~= encode_utf8(behind) + rest);
        assert(valid_first_scalar(bytes));
        if valid_utf8(rest) {
            assert(decode_first_scalar(bytes) as char == front[0]);
            assert(decode_utf8(bytes) =~= front + decode_utf8(rest));
        }
    }
}

/// Whether two answers are the same but that the second may lack the body of an asset.
pub open spec fn same_but_for_body(get: AssetReply, head: AssetReply) -> bool {
    match get {
        AssetReply::Asset { index, .. } => get == (AssetReply::Asset { index, body: true }) && head
            == (AssetReply::Asset { index, body: false }),
        _ => head == get,
    }
}

proof fn lemma_method_front(method: Seq<char>, rest: Seq<char>)
    requires
        is_word(method),
    ensures
        ({
            let line = pieces(rest, line_break())[0];
            let size = word_length(line) as int;
            let behind = words(line.skip(size));
            request_line(method + rest) == if behind.len() < 2 {
                None
            } else {
                Some((method + line.take(size), behind[0], behind[1]))
            }
        }),
        forall|address: Seq<char>| #[trigger]
            request_names_host(method + rest, address) == request_names_host(rest, address),
{
    lemma_word_has_no_return(method);
    lemma_pieces_front(method, rest, line_break());
    let all = pieces(rest, line_break());
    let whole = pieces(method + rest, line_break());
    lemma_words_front(method, all[0]);
    assert forall|address: Seq<char>| #[trigger]
        request_names_host(method + rest, address) == request_names_host(rest, address) by {
        assert forall|i: int| 1 <= i < all.len() implies whole[i] == #[trigger] all[i] by {}
        if request_names_host(rest, address) {
            let i = choose|i: int| 1 <= i < all.len() && names_host(#[trigger] all[i], address);
            assert(names_host(whole[i], address));
        }
        if request_names_host(method + rest, address) {
            let i = choose|i: int|
                1 <= i < whole.len() && names_host(#[trigger] whole[i], address);
            assert(names_host(all[i], address));
        }
    }
}

proof fn lemma_get_and_head(table: AssetTable, rest: Seq<char>)
    ensures
        same_but_for_body(
            reply_to_text(table, "GET"@ + rest),
            reply_to_text(table, "HEAD"@ + rest),
        ),
{
    lemma_methods();
    lemma_method_front("GET"@, rest);
    lemma_method_front("HEAD"@, rest);
    let line = pieces(rest, line_break())[0];
    let size = word_length(line) as int;
    lemma_word_length(line);
    let more = line.take(size);
    reveal_strlit("GET");
    reveal_strlit("HEAD");
    if size == 0 {
        assert("GET"@ + more =~= "GET"@);
        assert("HEAD"@ + more =~= "HEAD"@);
    } else {
        assert(("GET"@ + more)[2] == 'T');
        assert("HEAD"@[2] == 'A');
        assert(("HEAD"@ + more).len() > 4);
        assert(("GET"@ + more).len() > 3);
    }
}

/// A `HEAD` is answered like a `GET` of the same request, byte for byte, without the body: whatever
/// stands behind the method, the one answer has the head of the other and, where that carries an
/// asset, not its bytes.
pub proof fn head_is_answered_like_get_without_the_body(table: AssetTable, rest: Seq<u8>)
    requires
        first_occurrence(rest, header_break()) is Some,
    ensures
        ({
            let get = reply_to_bytes(table, encode_utf8("GET"@) + rest);
            let head = reply_to_bytes(table, encode_utf8("HEAD"@) + rest);
            &&& request_step(table, encode_utf8("GET"@) + rest, false) == RequestStep::Answer(get)
            &&& request_step(table, encode_utf8("HEAD"@) + rest, false) == RequestStep::Answer(head)
            &&& reply_head(table, head) == reply_head(table, get)
            &&& response_body(table, head) == Seq::<u8>::empty()
            &&& response_bytes(table, get) == response_bytes(table, head) + response_body(
                table,
                get,
            )
            &&& get matches AssetReply::Asset { index, .. } ==> response_body(table, get)
                == table.assets@[index as int].source@
        }),
{
    reveal_strlit("GET");
    reveal_strlit("HEAD");
    is_ascii_chars_encode_utf8("GET"@);
    is_ascii_chars_encode_utf8("HEAD"@);
    lemma_first_occurrence_front(encode_utf8("GET"@), rest, header_break());
    lemma_first_occurrence_front(encode_utf8("HEAD"@), rest, header_break());
    lemma_ascii_front("GET"@, rest);
    lemma_ascii_front("HEAD"@, rest);
    if valid_utf8(rest) {
        lemma_get_and_head(table, decode_utf8(rest));
    }
    let get = reply_to_bytes(table, encode_utf8("GET"@) + rest);
    let head = reply_to_bytes(table, encode_utf8("HEAD"@) + rest);
    assert(same_but_for_body(get, head));
    assert(response_bytes(table, get) =~= response_bytes(table, head) + response_body(table, get));
}

/// Lines, each with its end.
spec fn with_ends(lines: Seq<Seq<char>>) -> Seq<char>
    decreases lines.len(),
{
    if lines.len() == 0 {
        Seq::empty()
    } else {
        lines[0] + line_break() + with_ends(lines.drop_first())
    }
}

proof fn lemma_lines_read_back(lines: Seq<Seq<char>>)
    requires
        forall|i: int| 0 <= i < lines.len() ==> !(#[trigger] lines[i]).contains('\r'),
    ensures
        pieces(with_ends(lines), line_break()) == lines.push(Seq::empty()),
    decreases lines.len(),
{
    if lines.len() == 0 {
        assert(forall|at: int| !occurs_at(Seq::<char>::empty(), line_break(), at));
        lemma_no_occurrence(Seq::<char>::empty(), line_break());
        assert(pieces(with_ends(lines), line_break()) =~= lines.push(Seq::empty()));
    } else {
        let rest = lines.drop_first();
        assert forall|i: int| 0 <= i < rest.len() implies !(#[trigger] rest[i]).contains('\r') by {
            assert(rest[i] == lines[i + 1]);
        }
        lemma_lines_read_back(rest);
        lemma_pieces_step(lines[0], line_break(), with_ends(rest));
        assert(pieces(with_ends(lines), line_break()) =~= lines.push(Seq::empty()));
    }
}

proof fn lemma_with_ends_step(line: Seq<char>, lines: Seq<Seq<char>>)
    ensures
        with_ends(seq![line] + lines) == line + line_break() + with_ends(lines),
{
    assert((seq![line] + lines).drop_first() =~= lines);
}

proof fn lemma_decimal_has_no_return(number: nat)
    ensures
        !decimal(number).contains('\r'),
{
    lemma_decimal(number);
    if decimal(number).contains('\r') {
        let i = choose|i: int| 0 <= i < decimal(number).len() && decimal(number)[i] == '\r';
        assert(is_digit(decimal(number)[i]));
    }
}

proof fn lemma_no_return(left: Seq<char>, right: Seq<char>)
    requires
        !left.contains('\r'),
        !right.contains('\r'),
    ensures
        !(left + right).contains('\r'),
{
    let text = left + right;
    if text.contains('\r') {
        let i = choose|i: int| 0 <= i < text.len() && text[i] == '\r';
        if i < left.len() {
            assert(left[i] == '\r');
        } else {
            assert(right[i - left.len()] == '\r');
        }
    }
}

spec fn asset_lines() -> Seq<Seq<char>> {
    seq![
        "Cache-Control: private, no-store"@,
        "Cross-Origin-Resource-Policy: cross-origin"@,
        "X-Content-Type-Options: nosniff"@,
        "Content-Security-Policy: default-src 'none'; style-src 'unsafe-inline'; img-src data:"@,
        "Connection: close"@,
        Seq::empty(),
    ]
}

proof fn lemma_asset_lines()
    ensures
        "\r\nCache-Control: private, no-store\r\nCross-Origin-Resource-Policy: cross-origin\r\nX-Content-Type-Options: nosniff\r\nContent-Security-Policy: default-src 'none'; style-src 'unsafe-inline'; img-src data:\r\nConnection: close\r\n\r\n"@ == line_break() + with_ends(asset_lines()),
        forall|i: int| 0 <= i < asset_lines().len() ==> !(#[trigger] asset_lines()[i]).contains('\r'),
{
    reveal_strlit("Cache-Control: private, no-store");
    reveal_strlit("Cross-Origin-Resource-Policy: cross-origin");
    reveal_strlit("X-Content-Type-Options: nosniff");
    reveal_strlit("Content-Security-Policy: default-src 'none'; style-src 'unsafe-inline'; img-src data:");
    reveal_strlit("Connection: close");
    reveal_strlit("\r\nCache-Control: private, no-store\r\nCross-Origin-Resource-Policy: cross-origin\r\nX-Content-Type-Options: nosniff\r\nContent-Security-Policy: default-src 'none'; style-src 'unsafe-inline'; img-src data:\r\nConnection: close\r\n\r\n");
    let none = Seq::<Seq<char>>::empty();
    let empty = Seq::<char>::empty();
    let lines5 = seq![empty] + none;
    let lines4 = seq!["Connection: close"@] + lines5;
    let lines3 = seq!["Content-Security-Policy: default-src 'none'; style-src 'unsafe-inline'; img-src data:"@] + lines4;
    let lines2 = seq!["X-Content-Type-Options: nosniff"@] + lines3;
    let lines1 = seq!["Cross-Origin-Resource-Policy: cross-origin"@] + lines2;
    let lines0 = seq!["Cache-Control: private, no-store"@] + lines1;
    lemma_with_ends_step(empty, none);
    lemma_with_ends_step("Cache-Control: private, no-store"@, lines1);
    lemma_with_ends_step("Cross-Origin-Resource-Policy: cross-origin"@, lines2);
    lemma_with_ends_step("X-Content-Type-Options: nosniff"@, lines3);
    lemma_with_ends_step("Content-Security-Policy: default-src 'none'; style-src 'unsafe-inline'; img-src data:"@, lines4);
    lemma_with_ends_step("Connection: close"@, lines5);
    assert(lines0 =~= asset_lines());
    assert(with_ends(none) =~= empty);
    assert("\r\nCache-Control: private, no-store\r\nCross-Origin-Resource-Policy: cross-origin\r\nX-Content-Type-Options: nosniff\r\nContent-Security-Policy: default-src 'none'; style-src 'unsafe-inline'; img-src data:\r\nConnection: close\r\n\r\n"@ =~= line_break() + with_ends(lines0));
}

/// The head of the answer that serves an asset, line by line: its type is the asset's own, its
/// length is the number of the asset's bytes, and nothing else in it rests on the asset. The head
/// ends with an empty line.
pub proof fn asset_head_tells_its_type_and_length(
    table: AssetTable,
    index: usize,
    body: bool,
    head: String,
)
    requires
        call_ensures(write_reply_head, (&table, AssetReply::Asset { index, body }), head),
        index < table.assets@.len(),
        !table.assets@[index as int].mime@.contains('\r'),
    ensures
        pieces(head@, seq!['\r', '\n']) == seq![
            "HTTP/1.1 200 OK"@,
            "Content-Type: "@ + table.assets@[index as int].mime@,
            "Content-Length: "@ + decimal(table.assets@[index as int].source@.len()),
            "Cache-Control: private, no-store"@,
            "Cross-Origin-Resource-Policy: cross-origin"@,
            "X-Content-Type-Options: nosniff"@,
            "Content-Security-Policy: default-src 'none'; style-src 'unsafe-inline'; img-src data:"@,
            "Connection: close"@,
            Seq::empty(),
            Seq::empty(),
        ],
{
    let asset = table.assets@[index as int];
    let length = decimal(asset.source@.len());
    let first = "HTTP/1.1 200 OK"@;
    let second = "Content-Type: "@ + asset.mime@;
    let third = "Content-Length: "@ + length;
    lemma_asset_lines();
    lemma_decimal_has_no_return(asset.source@.len());
    reveal_strlit("HTTP/1.1 200 OK");
    reveal_strlit("Content-Type: ");
    reveal_strlit("Content-Length: ");
    reveal_strlit("HTTP/1.1 200 OK\r\nContent-Type: ");
    reveal_strlit("\r\nContent-Length: ");
    assert("HTTP/1.1 200 OK\r\nContent-Type: "@ =~= first + line_break() + "Content-Type: "@);
    assert("\r\nContent-Length: "@ =~= line_break() + "Content-Length: "@);
    lemma_no_return("Content-Type: "@, asset.mime@);
    lemma_no_return("Content-Length: "@, length);
    let lines = seq![first] + (seq![second] + (seq![third] + asset_lines()));
    lemma_with_ends_step(third, asset_lines());
    lemma_with_ends_step(second, seq![third] + asset_lines());
    lemma_with_ends_step(first, seq![second] + (seq![third] + asset_lines()));
    assert(head@ =~= with_ends(lines));
    assert forall|i: int| 0 <= i < lines.len() implies !(#[trigger] lines[i]).contains('\r') by {
        if i >= 3 {
            assert(lines[i] == asset_lines()[i - 3]);
        }
    }
    lemma_lines_read_back(lines);
    assert(lines.push(Seq::empty()) =~= seq![
        first,
        second,
        third,
        "Cache-Control: private, no-store"@,
        "Cross-Origin-Resource-Policy: cross-origin"@,
        "X-Content-Type-Options: nosniff"@,
        "Content-Security-Policy: default-src 'none'; style-src 'unsafe-inline'; img-src data:"@,
        "Connection: close"@,
        Seq::empty(),
        Seq::empty(),
    ]);
}

spec fn refusal_lines() -> Seq<Seq<char>> {
    seq!["Content-Length: 0"@, "Cache-Control: no-store"@, "Connection: close"@, Seq::empty()]
}

proof fn lemma_refusal_lines()
    ensures
        "\r\nContent-Length: 0\r\nCache-Control: no-store\r\nConnection: close\r\n\r\n"@
            == line_break() + with_ends(refusal_lines()),
        forall|i: int|
            0 <= i < refusal_lines().len() ==> !(#[trigger] refusal_lines()[i]).contains('\r'),
{
    reveal_strlit("Content-Length: 0");
    reveal_strlit("Cache-Control: no-store");
    reveal_strlit("Connection: close");
    reveal_strlit(
        "\r\nContent-Length: 0\r\nCache-Control: no-store\r\nConnection: close\r\n\r\n",
    );
    let none = Seq::<Seq<char>>::empty();
    let empty = Seq::<char>::empty();
    let lines3 = seq![empty] + none;
    let lines2 = seq!["Connection: close"@] + lines3;
    let lines1 = seq!["Cache-Control: no-store"@] + lines2;
    let lines0 = seq!["Content-Length: 0"@] + lines1;
    lemma_with_ends_step(empty, none);
    lemma_with_ends_step("Connection: close"@, lines3);
    lemma_with_ends_step("Cache-Control: no-store"@, lines2);
    lemma_with_ends_step("Content-Length: 0"@, lines1);
    assert(lines0 =~= refusal_lines());
    assert(with_ends(none) =~= empty);
    assert("\r\nContent-Length: 0\r\nCache-Control: no-store\r\nConnection: close\r\n\r\n"@
        =~= line_break() + with_ends(lines0));
}

proof fn lemma_refusal(status: nat, reason: Seq<char>, first: Seq<char>)
    requires
        first == "HTTP/1.1 "@ + decimal(status) + seq![' '] + reason,
        !first.contains('\r'),
    ensures
        pieces(empty_head(status, reason), line_break()) == seq![
            first,
            "Content-Length: 0"@,
            "Cache-Control: no-store"@,
            "Connection: close"@,
            Seq::empty(),
            Seq::empty(),
        ],
{
    lemma_refusal_lines();
    let lines = seq![first] + refusal_lines();
    lemma_with_ends_step(first, refusal_lines());
    assert(empty_head(status, reason) =~= with_ends(lines));
    assert forall|i: int| 0 <= i < lines.len() implies !(#[trigger] lines[i]).contains('\r') by {
        if i > 0 {
            assert(lines[i] == refusal_lines()[i - 1]);
        }
    }
    lemma_lines_read_back(lines);
    assert(lines.push(Seq::empty()) =~= seq![
        first,
        "Content-Length: 0"@,
        "Cache-Control: no-store"@,
        "Connection: close"@,
        Seq::empty(),
        Seq::empty(),
    ]);
}

proof fn lemma_statuses()
    ensures
        decimal(204) == seq!['2', '0', '4'],
        decimal(400) == seq!['4', '0', '0'],
        decimal(404) == seq!['4', '0', '4'],
        decimal(431) == seq!['4', '3', '1'],
        decimal(503) == seq!['5', '0', '3'],
{
    reveal_with_fuel(decimal, 3);
    assert(decimal(204) =~= seq!['2', '0', '4']);
    assert(decimal(400) =~= seq!['4', '0', '0']);
    assert(decimal(404) =~= seq!['4', '0', '4']);
    assert(decimal(431) =~= seq!['4', '3', '1']);
    assert(decimal(503) =~= seq!['5', '0', '3']);
}

/// The head of an answer that serves no asset, line by line: it tells why, under the status that
/// stands for it, and that nothing follows.
pub proof fn refusal_tells_its_reason(table: AssetTable, reply: AssetReply, head: String)
    requires
        call_ensures(write_reply_head, (&table, reply), head),
        !(reply is Asset),
    ensures
        pieces(head@, seq!['\r', '\n']) == seq![
            match reply {
                AssetReply::BadRequest => "HTTP/1.1 400 Bad Request"@,
                AssetReply::NotFound => "HTTP/1.1 404 Not Found"@,
                AssetReply::HeaderTooLarge => "HTTP/1.1 431 Request Header Fields Too Large"@,
                AssetReply::Unavailable => "HTTP/1.1 503 Service Unavailable"@,
                _ => "HTTP/1.1 204 No Content"@,
            },
            "Content-Length: 0"@,
            "Cache-Control: no-store"@,
            "Connection: close"@,
            Seq::empty(),
            Seq::empty(),
        ],
{
    lemma_statuses();
    reveal_strlit("HTTP/1.1 ");
    match reply {
        AssetReply::BadRequest => {
            reveal_strlit("Bad Request");
            reveal_strlit("HTTP/1.1 400 Bad Request");
            assert("HTTP/1.1 400 Bad Request"@ =~= "HTTP/1.1 "@ + decimal(400) + seq![' ']
                + "Bad Request"@);
            lemma_refusal(400, "Bad Request"@, "HTTP/1.1 400 Bad Request"@);
        },
        AssetReply::NotFound => {
            reveal_strlit("Not Found");
            reveal_strlit("HTTP/1.1 404 Not Found");
            assert("HTTP/1.1 404 Not Found"@ =~= "HTTP/1.1 "@ + decimal(404) + seq![' ']
                + "Not Found"@);
            lemma_refusal(404, "Not Found"@, "HTTP/1.1 404 Not Found"@);
        },
        AssetReply::HeaderTooLarge => {
            reveal_strlit("Request Header Fields Too Large");
            reveal_strlit("HTTP/1.1 431 Request Header Fields Too Large");
            assert("HTTP/1.1 431 Request Header Fields Too Large"@ =~= "HTTP/1.1 "@ + decimal(431)
                + seq![' '] + "Request Header Fields Too Large"@);
            lemma_refusal(
                431,
                "Request Header Fields Too Large"@,
                "HTTP/1.1 431 Request Header Fields Too Large"@,
            );
        },
        AssetReply::Unavailable => {
            reveal_strlit("Service Unavailable");
            reveal_strlit("HTTP/1.1 503 Service Unavailable");
            assert("HTTP/1.1 503 Service Unavailable"@ =~= "HTTP/1.1 "@ + decimal(503) + seq![' ']
                + "Service Unavailable"@);
            lemma_refusal(503, "Service Unavailable"@, "HTTP/1.1 503 Service Unavailable"@);
        },
        _ => {
            reveal_strlit("No Content");
            reveal_strlit("HTTP/1.1 204 No Content");
            assert("HTTP/1.1 204 No Content"@ =~= "HTTP/1.1 "@ + decimal(204) + seq![' ']
                + "No Content"@);
            lemma_refusal(204, "No Content"@, "HTTP/1.1 204 No Content"@);
        },
    }
}

/// What follows the head of an answer: all bytes of the asset that a `GET` is answered with, and
/// nothing behind any other head.
pub proof fn body_is_the_whole_asset(
    table: AssetTable,
    reply: AssetReply,
    body: Option<&Vec<u8>>,
)
    requires
        call_ensures(reply_body, (&table, reply), body),
        reply matches AssetReply::Asset { index, .. } ==> index < table.assets@.len(),
    ensures
        match reply {
            AssetReply::Asset { index, body: wanted } => if wanted {
                body is Some && body->0@ == table.assets@[index as int].source@
            } else {
                body is None
            },
            _ => body is None,
        },
{
}

proof fn lemma_fetch_step(
    table: AssetTable,
    method: Seq<char>,
    path: Seq<char>,
    more: Seq<char>,
    received: &[u8],
    step: RequestStep,
)
    requires
        is_word(method),
        is_word(path),
        is_word(table.address@),
        ends_with_line(more),
        received@ == encode_utf8(fetch_request(method, path, table.address@, more)),
        call_ensures(serve_theme_asset_request, (&table, received, false), step),
    ensures
        step == RequestStep::Answer(
            if method != "GET"@ && method != "HEAD"@ {
                AssetReply::NotFound
            } else {
                reply_for_path(table, path, method == "GET"@)
            },
        ),
{
    let request = fetch_request(method, path, table.address@, more);
    lemma_request_ends(method, path, table.address@, more);
    lemma_fetch_request(method, path, table.address@, more);
    assert(valid_utf8(encode_utf8(request)) && decode_utf8(encode_utf8(request)) == request) by {
        encode_utf8_valid_utf8(request);
        encode_utf8_decode_utf8(request);
    }
}

proof fn lemma_reply_for_path(table: AssetTable, path: Seq<char>, body: bool, index: usize)
    ensures
        path == revoke_route(table.token@) <==> reply_for_path(table, path, body)
            == AssetReply::Revoked,
        index < table.assets@.len() ==> (path == asset_route(table.token@, index as nat)
            <==> reply_for_path(table, path, body) == (AssetReply::Asset { index, body })),
        reply_for_path(table, path, body) matches AssetReply::Asset { index: found, body: sent }
            ==> found < table.assets@.len() && sent == body,
        reply_for_path(table, path, body) is Asset || reply_for_path(table, path, body)
            == AssetReply::Revoked || reply_for_path(table, path, body) == AssetReply::NotFound,
{
    asset_routes_are_distinct(table.token@, index as nat, index as nat);
    if index < table.assets@.len() {
        lemma_index_of(table, index as int);
    }
    if let Some(found) = table.index_of(path) {
        assert(table.assets.len() == table.assets@.len());
        assert(path == asset_route(table.token@, found as nat));
        asset_routes_are_distinct(table.token@, found as nat, found as nat);
    }
}

/// How a request for a path is answered, by its method and its path alone: an asset under its own
/// path, to a `GET` with its bytes; the revocation under its path; and nothing under any other path
/// or to any other method. Header lines behind the one that names the host make no difference.
pub proof fn fetch_is_answered_by_method_and_path(
    table: AssetTable,
    method: Seq<char>,
    path: Seq<char>,
    more: Seq<char>,
    received: &[u8],
    step: RequestStep,
)
    requires
        is_word(method),
        is_word(path),
        is_word(table.address@),
        ends_with_line(more),
        received@ == encode_utf8(
            method + " "@ + path + " HTTP/1.1\r\nHost: "@ + table.address@ + "\r\n"@ + more
                + "\r\n"@,
        ),
        call_ensures(serve_theme_asset_request, (&table, received, false), step),
    ensures
        step is Answer,
        method != "GET"@ && method != "HEAD"@ ==> step->Answer_0 == AssetReply::NotFound,
        method == "GET"@ || method == "HEAD"@ ==> (path == "/"@ + table.token@ + "/revoke"@
            <==> step->Answer_0 == AssetReply::Revoked),
        method == "GET"@ || method == "HEAD"@ ==> forall|index: usize|
            index < table.assets@.len() ==> (path == "/"@ + table.token@ + "/"@ + #[trigger] decimal(
                index as nat,
            ) <==> step->Answer_0 == (AssetReply::Asset { index, body: method == "GET"@ })),
        step->Answer_0 is Asset || step->Answer_0 == AssetReply::Revoked || step->Answer_0
            == AssetReply::NotFound,
        step->Answer_0 matches AssetReply::Asset { index, body } ==> index < table.assets@.len()
            && body == (method == "GET"@),
{
    reveal_strlit(" ");
    reveal_strlit("/");
    reveal_strlit("\r\n");
    assert(" "@ =~= seq![' ']);
    assert("/"@ =~= seq!['/']);
    assert("\r\n"@ =~= line_break());
    lemma_fetch_step(table, method, path, more, received, step);
    lemma_reply_for_path(table, path, method == "GET"@, 0);
    assert forall|index: usize| index < table.assets@.len() && (method == "GET"@ || method
        == "HEAD"@) implies (path == "/"@ + table.token@ + "/"@ + #[trigger] decimal(index as nat)
        <==> step->Answer_0 == (AssetReply::Asset { index, body: method == "GET"@ })) by {
        lemma_reply_for_path(table, path, method == "GET"@, index);
    }
}

/// Whether an empty line begins at an index of some bytes, behind the end of another line.
pub open spec fn header_ends_at(bytes: Seq<u8>, at: int) -> bool {
    &&& 0 <= at
    &&& at + 4 <= bytes.len()
    &&& bytes[at] == 13
    &&& bytes[at + 1] == 10
    &&& bytes[at + 2] == 13
    &&& bytes[at + 3] == 10
}

/// A request is waited for until its header is complete: a header that is not there yet is asked
/// for, one that fills the buffer before is refused, and a client that has stopped sending gets no
/// answer, whatever it has sent.
pub proof fn incomplete_request_is_waited_for(
    table: AssetTable,
    received: &[u8],
    ended: bool,
    step: RequestStep,
)
    requires
        call_ensures(serve_theme_asset_request, (&table, received, ended), step),
    ensures
        ended <==> step == RequestStep::Close,
        !ended && (forall|at: int| !#[trigger] header_ends_at(received@, at)) ==> step == if
            received@.len() < 8192 {
            RequestStep::ReadMore
        } else {
            RequestStep::Answer(AssetReply::HeaderTooLarge)
        },
        !ended && (exists|at: int| #[trigger] header_ends_at(received@, at)) ==> step is Answer
            && step != RequestStep::Answer(AssetReply::HeaderTooLarge),
{
    let pattern = header_break();
    if exists|at: int| #[trigger] header_ends_at(received@, at) {
        let at = choose|at: int| #[trigger] header_ends_at(received@, at);
        assert(received@.subrange(at, at + 4) =~= pattern);
        assert(occurs_at(received@, pattern, at));
        lemma_some_occurrence(received@, pattern, at);
    } else {
        assert forall|at: int| !#[trigger] occurs_at(received@, pattern, at) by {
            if occurs_at(received@, pattern, at) {
                assert forall|i: int| 0 <= i < 4 implies #[trigger] received@[at + i]
                    == pattern[i] by {
                    assert(received@.subrange(at, at + 4)[i] == pattern[i]);
                }
                assert(received@[at + 0] == pattern[0]);
                assert(header_ends_at(received@, at));
            }
        }
        lemma_no_occurrence(received@, pattern);
    }
}

/// Whether a text is `host`, with small or capital letters.
pub open spec fn is_host_name(text: Seq<char>) -> bool {
    &&& text.len() == 4
    &&& text[0] == 'h' || text[0] == 'H'
    &&& text[1] == 'o' || text[1] == 'O'
    &&& text[2] == 's' || text[2] == 'S'
    &&& text[3] == 't' || text[3] == 'T'
}

proof fn lemma_host_name(name: Seq<char>)
    ensures
        is_host_name(name) <==> lowered(name) == "host"@,
{
    reveal_strlit("host");
    let lower = lowered(name);
    assert(lower.len() == name.len());
    if name.len() == 4 {
        assert(lower[0] == lower_char(name[0]));
        assert(lower[1] == lower_char(name[1]));
        assert(lower[2] == lower_char(name[2]));
        assert(lower[3] == lower_char(name[3]));
        if is_host_name(name) {
            assert(lower =~= "host"@);
        }
    }
}

/// A request with one header line.
pub open spec fn single_header_request(
    method: Seq<char>,
    path: Seq<char>,
    version: Seq<char>,
    name: Seq<char>,
    value: Seq<char>,
) -> Seq<char> {
    (method + seq![' '] + (path + seq![' '] + version)) + line_break() + ((name + seq![':'] + value)
        + line_break() + (Seq::<char>::empty() + line_break() + Seq::<char>::empty()))
}

proof fn lemma_three_words(method: Seq<char>, path: Seq<char>, version: Seq<char>)
    requires
        is_word(method),
        is_word(path),
        is_word(version),
    ensures
        words(method + seq![' '] + (path + seq![' '] + version)) == seq![method, path, version],
        !(method + seq![' '] + (path + seq![' '] + version)).contains('\r'),
{
    lemma_words_step(method, path + seq![' '] + version);
    lemma_words_step(path, version);
    lemma_words_last(version);
    assert(seq![method] + (seq![path] + seq![version]) =~= seq![method, path, version]);
    lemma_word_has_no_return(method);
    lemma_word_has_no_return(path);
    lemma_word_has_no_return(version);
    lemma_no_return(path + seq![' '], version);
    lemma_no_return(path, seq![' ']);
    lemma_no_return(method + seq![' '], path + seq![' '] + version);
    lemma_no_return(method, seq![' ']);
}

proof fn lemma_empty_line()
    ensures
        pieces(Seq::<char>::empty(), line_break()) == seq![Seq::<char>::empty()],
        header_field(Seq::<char>::empty()) is None,
{
    let none = Seq::<char>::empty();
    assert forall|at: int| !occurs_at(none, line_break(), at) by {}
    lemma_no_occurrence(none, line_break());
    lemma_header(none, none);
}

#[verifier::spinoff_prover]
#[verifier::rlimit(60)]
proof fn lemma_single_header_lines(first: Seq<char>, line: Seq<char>, text: Seq<char>)
    requires
        !first.contains('\r'),
        !line.contains('\r'),
        text == first + line_break() + (line + line_break() + (Seq::<char>::empty() + line_break()
            + Seq::<char>::empty())),
    ensures
        pieces(text, line_break()) == seq![first, line, Seq::empty(), Seq::empty()],
{
    let none = Seq::<char>::empty();
    let tail = none + line_break() + none;
    let rest = line + line_break() + tail;
    assert(pieces(tail, line_break()) == seq![none] + seq![none]) by {
        lemma_empty_line();
        lemma_pieces_step(none, line_break(), none);
    }
    assert(pieces(rest, line_break()) == seq![line] + pieces(tail, line_break())) by {
        lemma_pieces_step(line, line_break(), tail);
    }
    assert(pieces(text, line_break()) == seq![first] + pieces(rest, line_break())) by {
        lemma_pieces_step(first, line_break(), rest);
    }
    lemma_four(first, line, none);
}

proof fn lemma_four(first: Seq<char>, second: Seq<char>, last: Seq<char>)
    ensures
        seq![first] + (seq![second] + (seq![last] + seq![last])) == seq![first, second, last, last],
{
    assert(seq![first] + (seq![second] + (seq![last] + seq![last])) =~= seq![
        first,
        second,
        last,
        last,
    ]);
}

proof fn lemma_host_header(
    address: Seq<char>,
    name: Seq<char>,
    before: Seq<char>,
    host: Seq<char>,
    behind: Seq<char>,
)
    requires
        !name.contains(':'),
        !name.contains('\r'),
        all_white(before),
        all_white(behind),
        !before.contains('\r'),
        !behind.contains('\r'),
        is_word(host),
    ensures
        names_host(name + seq![':'] + (before + host + behind), address) <==> is_host_name(name)
            && host == address,
        !(name + seq![':'] + (before + host + behind)).contains('\r'),
        !names_host(Seq::empty(), address),
{
    lemma_word_has_no_return(host);
    lemma_no_return(before, host);
    lemma_no_return(before + host, behind);
    lemma_no_return(name, seq![':']);
    lemma_no_return(name + seq![':'], before + host + behind);
    lemma_empty_line();
    lemma_header(name, before + host + behind);
    lemma_host_name(name);
    assert(!is_white(host[0]) && !is_white(host[host.len() - 1]));
    lemma_trimmed_core(before, host, behind);
}

#[verifier::spinoff_prover]
#[verifier::rlimit(60)]
proof fn lemma_single_header(
    table: AssetTable,
    method: Seq<char>,
    path: Seq<char>,
    version: Seq<char>,
    name: Seq<char>,
    before: Seq<char>,
    host: Seq<char>,
    behind: Seq<char>,
)
    requires
        is_word(method),
        is_word(path),
        is_word(version),
        !name.contains(':'),
        !name.contains('\r'),
        all_white(before),
        all_white(behind),
        !before.contains('\r'),
        !behind.contains('\r'),
        is_word(host),
    ensures
        ({
            let text = single_header_request(method, path, version, name, before + host + behind);
            &&& request_line(text) == Some((method, path, version))
            &&& request_names_host(text, table.address@) <==> is_host_name(name) && host
                == table.address@
        }),
{
    let first = method + seq![' '] + (path + seq![' '] + version);
    let line = name + seq![':'] + (before + host + behind);
    let text = single_header_request(method, path, version, name, before + host + behind);
    lemma_three_words(method, path, version);
    lemma_host_header(table.address@, name, before, host, behind);
    lemma_single_header_lines(first, line, text);
    let lines = pieces(text, line_break());
    assert(lines[0] == first);
    assert(lines[1] == line);
    if request_names_host(text, table.address@) {
        let i = choose|i: int|
            1 <= i < pieces(text, line_break()).len() && names_host(
                #[trigger] pieces(text, line_break())[i],
                table.address@,
            );
        assert(i == 1);
    }
}

proof fn lemma_single_header_step(
    table: AssetTable,
    method: Seq<char>,
    path: Seq<char>,
    version: Seq<char>,
    name: Seq<char>,
    value: Seq<char>,
    received: &[u8],
    step: RequestStep,
)
    requires
        call_ensures(serve_theme_asset_request, (&table, received, false), step),
        received@ == encode_utf8(single_header_request(method, path, version, name, value)),
    ensures
        step == RequestStep::Answer(
            reply_to_text(table, single_header_request(method, path, version, name, value)),
        ),
{
    let text = single_header_request(method, path, version, name, value);
    assert(text.skip(text.len() - 4) =~= line_break() + line_break());
    lemma_header_is_complete(text);
    assert(valid_utf8(encode_utf8(text)) && decode_utf8(encode_utf8(text)) == text) by {
        encode_utf8_valid_utf8(text);
        encode_utf8_decode_utf8(text);
    }
}

/// Only a request by `GET` or `HEAD`, of version 1.1, whose header names the address of the table as
/// its host, under whatever letters and with white space around it, is answered by its path; any
/// other finds nothing.
pub proof fn request_must_name_its_host_and_version(
    table: AssetTable,
    method: Seq<char>,
    path: Seq<char>,
    version: Seq<char>,
    name: Seq<char>,
    before: Seq<char>,
    host: Seq<char>,
    behind: Seq<char>,
    received: &[u8],
    step: RequestStep,
    fetched: &[u8],
    fetch: RequestStep,
)
    requires
        is_word(method),
        is_word(path),
        is_word(version),
        !name.contains(':'),
        !name.contains('\r'),
        all_white(before),
        all_white(behind),
        !before.contains('\r'),
        !behind.contains('\r'),
        is_word(host),
        call_ensures(serve_theme_asset_request, (&table, received, false), step),
        received@ == encode_utf8(
            single_header_request(method, path, version, name, before + host + behind),
        ),
        is_word(table.address@),
        call_ensures(serve_theme_asset_request, (&table, fetched, false), fetch),
        fetched@ == encode_utf8(fetch_request(method, path, table.address@, Seq::empty())),
    ensures
        (method == "GET"@ || method == "HEAD"@) && version == "HTTP/1.1"@ && is_host_name(name)
            && host == table.address@ ==> step == fetch,
        !((method == "GET"@ || method == "HEAD"@) && version == "HTTP/1.1"@ && is_host_name(name)
            && host == table.address@) ==> step == RequestStep::Answer(AssetReply::NotFound),
{
    lemma_single_header(table, method, path, version, name, before, host, behind);
    lemma_single_header_step(
        table,
        method,
        path,
        version,
        name,
        before + host + behind,
        received,
        step,
    );
    lemma_fetch_step(table, method, path, Seq::empty(), fetched, fetch);
}

/// A request whose first line does not name a method, a path and a version is bad, and so is one that
/// is not text.
#[verifier::spinoff_prover]
#[verifier::rlimit(60)]
pub proof fn incomplete_first_line_is_a_bad_request(
    table: AssetTable,
    method: Seq<char>,
    path: Seq<char>,
    received: &[u8],
    step: RequestStep,
)
    requires
        call_ensures(serve_theme_asset_request, (&table, received, false), step),
        is_word(method),
        is_word(path),
        received@ == encode_utf8(method + seq![' '] + path + (line_break() + line_break())) || (
        !valid_utf8(received@) && exists|at: int| #[trigger] header_ends_at(received@, at)),
    ensures
        step == RequestStep::Answer(AssetReply::BadRequest),
{
    let first = method + seq![' '] + path;
    let text = first + (line_break() + line_break());
    if received@ != encode_utf8(text) {
        let at = choose|at: int| #[trigger] header_ends_at(received@, at);
        assert(received@.subrange(at, at + 4) =~= header_break());
        lemma_some_occurrence(received@, header_break(), at);
    } else {
        assert(text.skip(text.len() - 4) =~= line_break() + line_break());
        lemma_header_is_complete(text);
        assert(decode_utf8(encode_utf8(text)) == text && valid_utf8(encode_utf8(text))) by {
            encode_utf8_valid_utf8(text);
            encode_utf8_decode_utf8(text);
        }
        lemma_words_step(method, path);
        lemma_words_last(path);
        lemma_word_has_no_return(method);
        lemma_word_has_no_return(path);
        lemma_no_return(method, seq![' ']);
        lemma_no_return(method + seq![' '], path);
        lemma_pieces_step(first, line_break(), line_break());
        assert(text =~= first + line_break() + line_break());
        assert(pieces(text, line_break())[0] == first);
        assert(words(first) =~= seq![method, path]);
    }
}

/// A request is answered alike as text and as the bytes of that text.
pub proof fn text_and_bytes_are_answered_alike(
    table: AssetTable,
    text: &str,
    bytes: &[u8],
    of_text: AssetReply,
    of_bytes: AssetReply,
    step: RequestStep,
)
    requires
        call_ensures(answer_text, (&table, text), of_text),
        call_ensures(answer_bytes, (&table, bytes), of_bytes),
        call_ensures(serve_theme_asset_request, (&table, bytes, false), step),
        bytes@ == encode_utf8(text@),
    ensures
        of_text == of_bytes,
        (exists|at: int| #[trigger] header_ends_at(bytes@, at)) ==> step == RequestStep::Answer(
            of_bytes,
        ),
{
    encode_utf8_valid_utf8(text@);
    encode_utf8_decode_utf8(text@);
    if exists|at: int| #[trigger] header_ends_at(bytes@, at) {
        let at = choose|at: int| #[trigger] header_ends_at(bytes@, at);
        assert(bytes@.subrange(at, at + 4) =~= header_break());
        lemma_some_occurrence(bytes@, header_break(), at);
    }
}

/// A hundred requests are answered at the same time; another one is told so before it is read.
pub proof fn hundred_requests_are_answered_at_a_time(active: usize, reply: Option<AssetReply>)
    requires
        call_ensures(admit_connection, (active,), reply),
    ensures
        active < 100 <==> reply is None,
        active >= 100 <==> reply == Some(AssetReply::Unavailable),
{
}

/// The head of an answer without a body tells its status and its reason, and that nothing follows.
pub proof fn error_head_tells_its_status(status: u16, reason: &str, head: String)
    requires
        call_ensures(theme_asset_error, (status, reason), head),
        !reason@.contains('\r'),
    ensures
        pieces(head@, seq!['\r', '\n']) == seq![
            "HTTP/1.1 "@ + decimal(status as nat) + " "@ + reason@,
            "Content-Length: 0"@,
            "Cache-Control: no-store"@,
            "Connection: close"@,
            Seq::empty(),
            Seq::empty(),
        ],
{
    reveal_strlit(" ");
    reveal_strlit("HTTP/1.1 ");
    assert(" "@ =~= seq![' ']);
    lemma_decimal_has_no_return(status as nat);
    lemma_no_return("HTTP/1.1 "@, decimal(status as nat));
    lemma_no_return("HTTP/1.1 "@ + decimal(status as nat), seq![' ']);
    lemma_no_return("HTTP/1.1 "@ + decimal(status as nat) + seq![' '], reason@);
    lemma_refusal(
        status as nat,
        reason@,
        "HTTP/1.1 "@ + decimal(status as nat) + seq![' '] + reason@,
    );
}

} // verus!
