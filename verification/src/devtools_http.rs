//! Requests to the HTTP side of the theme channel and the responses to them.
use vstd::prelude::*;
use vstd::utf8::{
    decode_utf8, encode_utf8, encode_utf8_decode_utf8, encode_utf8_valid_utf8, is_ascii_chars,
    is_ascii_chars_encode_utf8, valid_utf8,
};

use crate::asset_http::{header_break, header_ends_at};
use crate::bytes::{decode_text, slice_bytes, utf8_error};
use crate::decimal::{
    decimal, decimal_chars, decimal_reads_back, is_digit, lemma_decimal, parse_decimal,
    parsed_up_to,
};
use crate::error::CodexError;
use crate::text::{
    chars_of, find_bytes, first_occurrence, header_field, lemma_first_occurrence,
    lemma_first_occurrence_bounds, lemma_header, lemma_last_line, lemma_lines_step,
    lemma_no_occurrence, lemma_trimmed_core, lower_chars, lowered, occurs_at, push_text, same_chars,
    split_header, split_lines, text_begins_with, text_lines, text_of, trim, trimmed, views,
};

verus! {

/// The request for a path at a port of the loopback address.
pub open spec fn devtools_request(port: nat, path: Seq<char>) -> Seq<char> {
    "GET "@ + path + " HTTP/1.1\r\nHost: 127.0.0.1:"@ + decimal(port)
        + "\r\nConnection: close\r\n\r\n"@
}

/// The request for a path at a port of the loopback address.
pub fn write_devtools_request(port: u16, path: &str) -> (result: String)
    ensures
        result@ == devtools_request(port as nat, path@),
{
    let mut request = chars_of("GET ");
    push_text(&mut request, path);
    push_text(&mut request, " HTTP/1.1\r\nHost: 127.0.0.1:");
    let mut digits = decimal_chars(port as u128);
    request.append(&mut digits);
    push_text(&mut request, "\r\nConnection: close\r\n\r\n");
    text_of(request.as_slice())
}

/// The length that a header line gives to the body.
pub open spec fn line_length(line: Seq<char>) -> Option<nat> {
    match header_field(line) {
        Some((name, value)) => if lowered(name) == "content-length"@ {
            parsed_up_to(trimmed(value), usize::MAX as nat)
        } else {
            None
        },
        None => None,
    }
}

/// The length that the first of some header lines to give one gives to the body.
pub open spec fn first_length(lines: Seq<Seq<char>>) -> Option<nat>
    decreases lines.len(),
{
    if lines.len() == 0 {
        None
    } else if line_length(lines[0]) is Some {
        line_length(lines[0])
    } else {
        first_length(lines.drop_first())
    }
}

fn read_line_length(line: &[char]) -> (result: Option<usize>)
    ensures
        match result {
            Some(length) => line_length(line@) == Some(length as nat),
            None => line_length(line@) is None,
        },
{
    match split_header(line) {
        Some((name, value)) => {
            if same_chars(
                lower_chars(name.as_slice()).as_slice(),
                chars_of("content-length").as_slice(),
            ) {
                match parse_decimal(trim(value.as_slice()).as_slice(), usize::MAX as u64) {
                    Some(length) => Some(length as usize),
                    None => None,
                }
            } else {
                None
            }
        },
        None => None,
    }
}

/// The length that the headers of a response give to its body.
pub fn content_length(headers: &str) -> (result: Option<usize>)
    ensures
        match result {
            Some(length) => first_length(text_lines(headers@)) == Some(length as nat),
            None => first_length(text_lines(headers@)) is None,
        },
{
    let lines = split_lines(chars_of(headers).as_slice());
    let ghost all = views(lines@);
    let mut i: usize = 0;
    assert(all.skip(0) =~= all);
    while i < lines.len()
        invariant
            i <= lines@.len(),
            all == views(lines@),
            all == text_lines(headers@),
            first_length(all) == first_length(all.skip(i as int)),
        decreases lines@.len() - i,
    {
        assert(all.skip(i as int)[0] == lines@[i as int]@);
        if let Some(length) = read_line_length(lines[i].as_slice()) {
            return Some(length);
        }
        assert(all.skip(i as int).drop_first() =~= all.skip(i + 1));
        i += 1;
    }
    None
}

/// What the bytes of a response that have come amount to.
pub enum ResponseState {
    ReadMore,
    Complete(int, int),
    Failed(Seq<char>),
}

/// What the bytes of a response that have come amount to: a response whose body, from one position
/// to another, is complete; a response that is refused, with a message; or the need to read on,
/// which an end of the stream turns into a refusal.
pub open spec fn response_state(received: Seq<u8>, ended: bool) -> ResponseState {
    match first_occurrence(received, header_break()) {
        Some(header_end) => {
            let header = received.take(header_end);
            let headers = decode_utf8(header);
            if !valid_utf8(header) {
                ResponseState::Failed("本地主题通道响应头无效："@ + utf8_error(header))
            } else {
                match first_length(text_lines(headers)) {
                    Some(length) => if received.len() - (header_end + 4) < length {
                        if ended {
                            ResponseState::Failed("本地主题通道响应体提前结束"@)
                        } else {
                            ResponseState::ReadMore
                        }
                    } else if !"HTTP/1.1 200"@.is_prefix_of(headers) {
                        ResponseState::Failed("本地主题通道请求失败："@ + headers)
                    } else {
                        ResponseState::Complete(header_end + 4, header_end + 4 + length)
                    },
                    None => ResponseState::Failed("本地主题通道响应缺少 Content-Length"@),
                }
            }
        },
        None => if ended {
            ResponseState::Failed("本地主题通道响应提前结束"@)
        } else {
            ResponseState::ReadMore
        },
    }
}

/// What to do about a response next.
#[derive(Debug)]
pub enum ResponseStep {
    ReadMore,
    /// The body of the response stands between two positions.
    Complete { start: usize, end: usize },
    Failed(CodexError),
}

/// What to do about a response of which some bytes have come. The stream has ended when a read
/// gave nothing more.
pub fn read_response(received: &[u8], ended: bool) -> (result: ResponseStep)
    ensures
        match result {
            ResponseStep::ReadMore => response_state(received@, ended) == ResponseState::ReadMore,
            ResponseStep::Complete { start, end } => response_state(received@, ended)
                == ResponseState::Complete(start as int, end as int) && start <= end
                <= received@.len(),
            ResponseStep::Failed(error) => response_state(received@, ended)
                == ResponseState::Failed(error@),
        },
{
    let pattern: Vec<u8> = vec![13u8, 10u8, 13u8, 10u8];
    assert(pattern@ =~= header_break());
    let header_end: usize = match find_bytes(received, pattern.as_slice()) {
        Some(header_end) => header_end,
        None => {
            return if ended {
                ResponseStep::Failed(CodexError::new("本地主题通道响应提前结束"))
            } else {
                ResponseStep::ReadMore
            };
        },
    };
    let header = slice_bytes(received, 0, header_end);
    assert(header@ =~= received@.take(header_end as int));
    let headers = match decode_text(header.as_slice()) {
        Ok(headers) => headers,
        Err(message) => {
            return ResponseStep::Failed(
                CodexError::detailed("本地主题通道响应头无效：", message.as_str()),
            );
        },
    };
    let length: usize = match content_length(headers.as_str()) {
        Some(length) => length,
        None => {
            return ResponseStep::Failed(
                CodexError::new("本地主题通道响应缺少 Content-Length"),
            );
        },
    };
    let start: usize = header_end + 4;
    if received.len() - start < length {
        return if ended {
            ResponseStep::Failed(CodexError::new("本地主题通道响应体提前结束"))
        } else {
            ResponseStep::ReadMore
        };
    }
    if !text_begins_with(headers.as_str(), "HTTP/1.1 200") {
        return ResponseStep::Failed(
            CodexError::detailed("本地主题通道请求失败：", headers.as_str()),
        );
    }
    ResponseStep::Complete { start, end: start + length }
}

proof fn lemma_occurrence_stays(received: Seq<u8>, more: Seq<u8>, pattern: Seq<u8>)
    requires
        first_occurrence(received, pattern) is Some,
    ensures
        first_occurrence(received + more, pattern) == first_occurrence(received, pattern),
{
    lemma_first_occurrence_bounds(received, pattern);
    let at = first_occurrence(received, pattern)->0;
    let whole = received + more;
    assert(whole.subrange(at, at + pattern.len()) =~= received.subrange(at, at + pattern.len()));
    assert forall|before: int| 0 <= before < at implies !occurs_at(whole, pattern, before) by {
        if occurs_at(whole, pattern, before) {
            assert(whole.subrange(before, before + pattern.len()) =~= received.subrange(
                before,
                before + pattern.len(),
            ));
            assert(occurs_at(received, pattern, before));
        }
    }
    lemma_first_occurrence(whole, pattern, at);
}

/// What a response amounts to once it is complete, or is refused before the stream has ended, does
/// not change with the bytes that come behind it.
pub proof fn later_bytes_do_not_change_a_response(received: Seq<u8>, more: Seq<u8>, ended: bool)
    requires
        !(response_state(received, false) is ReadMore),
    ensures
        response_state(received + more, ended) == response_state(received, false),
{
    lemma_occurrence_stays(received, more, header_break());
    let at = first_occurrence(received, header_break())->0;
    lemma_first_occurrence_bounds(received, header_break());
    assert((received + more).take(at) =~= received.take(at));
}

/// A response with its length among its headers reads back as the body that was sent, however many
/// bytes come behind it.
pub proof fn sent_body_reads_back(headers: Seq<char>, body: Seq<u8>, more: Seq<u8>, ended: bool)
    requires
        "HTTP/1.1 200"@.is_prefix_of(headers),
        first_length(text_lines(headers)) == Some(body.len()),
        first_occurrence(encode_utf8(headers) + header_break(), header_break()) == Some(
            encode_utf8(headers).len() as int,
        ),
    ensures
        ({
            let received = encode_utf8(headers) + header_break() + body + more;
            let start = encode_utf8(headers).len() + 4;
            let end = start + body.len();
            &&& response_state(received, ended) == ResponseState::Complete(start as int, end as int)
            &&& received.subrange(start as int, end as int) == body
        }),
{
    let header = encode_utf8(headers);
    assert(valid_utf8(header) && decode_utf8(header) == headers) by {
        encode_utf8_valid_utf8(headers);
        encode_utf8_decode_utf8(headers);
    }
    lemma_body_position(header, body, more);
}

proof fn lemma_body_position(header: Seq<u8>, body: Seq<u8>, more: Seq<u8>)
    requires
        first_occurrence(header + header_break(), header_break()) == Some(header.len() as int),
    ensures
        ({
            let received = header + header_break() + body + more;
            &&& first_occurrence(received, header_break()) == Some(header.len() as int)
            &&& received.take(header.len() as int) == header
            &&& received.subrange(
                header.len() as int + 4,
                header.len() as int + 4 + body.len(),
            ) == body
        }),
{
    let received = header + header_break() + body + more;
    lemma_occurrence_stays(header + header_break(), body + more, header_break());
    assert(header + header_break() + (body + more) =~= received);
    assert(received.take(header.len() as int) =~= header);
    assert(received.subrange(header.len() as int + 4, header.len() as int + 4 + body.len())
        =~= body);
}

/// A request asks for its path at the port of the loopback address, and for the end of the connection
/// behind the response.
pub proof fn request_names_its_path_and_port(port: u16, path: &str, request: String)
    requires
        call_ensures(write_devtools_request, (port, path), request),
    ensures
        request@ == "GET "@ + path@ + " HTTP/1.1\r\nHost: 127.0.0.1:"@ + decimal(port as nat)
            + "\r\nConnection: close\r\n\r\n"@,
{
}

/// Whether a text may be the first line of a response: visible ASCII characters and spaces, without a
/// colon.
pub open spec fn is_status_line(text: Seq<char>) -> bool {
    forall|i: int| 0 <= i < text.len() ==> ' ' <= #[trigger] text[i] <= '~' && text[i] != ':'
}

/// Whether a text is `content-length`, with small or capital letters.
pub open spec fn is_length_name(text: Seq<char>) -> bool {
    let small = "content-length"@;
    &&& text.len() == small.len()
    &&& forall|i: int|
        0 <= i < text.len() ==> #[trigger] text[i] == small[i] || ('a' <= small[i] <= 'z'
            && text[i] as int + 0x20 == small[i] as int)
}

/// Whether a text is made of spaces and tabs.
pub open spec fn is_blank(text: Seq<char>) -> bool {
    forall|i: int| 0 <= i < text.len() ==> #[trigger] text[i] == ' ' || text[i] == '\t'
}

/// The head of a response with a status line and a length.
pub open spec fn length_head(
    status: Seq<char>,
    name: Seq<char>,
    gap: Seq<char>,
    length: nat,
) -> Seq<char> {
    status + seq!['\r', '\n'] + (name + seq![':'] + (gap + decimal(length)))
}

proof fn lemma_length_name(name: Seq<char>)
    requires
        is_length_name(name),
    ensures
        lowered(name) == "content-length"@,
        name.len() == 14,
        forall|i: int| 0 <= i < name.len() ==> '-' <= #[trigger] name[i] <= 'z' && name[i] != ':',
{
    reveal_strlit("content-length");
    let small = "content-length"@;
    assert forall|i: int| 0 <= i < 14 implies small[i] == '-' || 'a' <= #[trigger] small[i]
        <= 'z' by {}
    assert forall|i: int| 0 <= i < name.len() implies '-' <= #[trigger] name[i] <= 'z' && name[i]
        != ':' && lowered(name)[i] == small[i] by {
        assert(small[i] == '-' || 'a' <= small[i] <= 'z');
        assert(name[i] == small[i] || ('a' <= small[i] <= 'z' && name[i] as int + 0x20
            == small[i] as int));
    }
    assert(lowered(name) =~= small);
}

proof fn lemma_length_line(name: Seq<char>, gap: Seq<char>, length: usize)
    requires
        is_length_name(name),
        is_blank(gap),
    ensures
        line_length(name + seq![':'] + (gap + decimal(length as nat))) == Some(length as nat),
{
    lemma_length_name(name);
    lemma_header(name, gap + decimal(length as nat));
    lemma_decimal(length as nat);
    decimal_reads_back(length as nat);
    let digits = decimal(length as nat);
    assert(is_digit(digits[0]) && is_digit(digits[digits.len() - 1]));
    let none = Seq::<char>::empty();
    lemma_trimmed_core(gap, digits, none);
    assert(gap + digits + none =~= gap + digits);
}

proof fn lemma_status_line(status: Seq<char>)
    requires
        is_status_line(status),
    ensures
        line_length(status) is None,
        !status.contains('\n'),
        status.len() > 0 ==> status.last() != '\r',
{
    assert(!status.contains(':'));
    lemma_header(status, Seq::empty());
}

proof fn lemma_head_chars(status: Seq<char>, name: Seq<char>, gap: Seq<char>, length: nat)
    requires
        is_status_line(status),
        is_length_name(name),
        is_blank(gap),
    ensures
        ({
            let head = length_head(status, name, gap, length);
            &&& head.len() > status.len() + 2
            &&& forall|i: int|
                0 <= i < head.len() ==> '\0' <= #[trigger] head[i] <= '\u{7f}' && (head[i] == '\r'
                    ==> i == status.len()) && (head[i] == '\n' ==> i == status.len() + 1)
        }),
{
    lemma_length_name(name);
    lemma_decimal(length);
    let head = length_head(status, name, gap, length);
    let digits = decimal(length);
    let size = status.len() as int;
    assert forall|i: int| 0 <= i < head.len() implies '\0' <= #[trigger] head[i] <= '\u{7f}' && (
    head[i] == '\r' ==> i == status.len()) && (head[i] == '\n' ==> i == status.len() + 1) by {
        if i < size {
            assert(head[i] == status[i]);
        } else if i < size + 2 {
        } else if i < size + 2 + name.len() {
            assert(head[i] == name[i - size - 2]);
        } else if i == size + 2 + name.len() {
            assert(head[i] == ':');
        } else if i < size + 3 + name.len() + gap.len() {
            assert(head[i] == gap[i - size - 3 - name.len()]);
        } else {
            assert(head[i] == digits[i - size - 3 - name.len() - gap.len()]);
            assert(is_digit(digits[i - size - 3 - name.len() - gap.len()]));
        }
    }
}

proof fn lemma_head_ends(status: Seq<char>, name: Seq<char>, gap: Seq<char>, length: nat)
    requires
        is_status_line(status),
        is_length_name(name),
        is_blank(gap),
    ensures
        ({
            let bytes = encode_utf8(length_head(status, name, gap, length));
            &&& bytes.len() == length_head(status, name, gap, length).len()
            &&& first_occurrence(bytes + header_break(), header_break()) == Some(
                bytes.len() as int,
            )
        }),
{
    lemma_head_chars(status, name, gap, length);
    let head = length_head(status, name, gap, length);
    assert(is_ascii_chars(head));
    is_ascii_chars_encode_utf8(head);
    let bytes = encode_utf8(head);
    let whole = bytes + header_break();
    let end = bytes.len() as int;
    assert(whole.subrange(end, end + 4) =~= header_break());
    assert forall|before: int| 0 <= before < end implies !occurs_at(
        whole,
        header_break(),
        before,
    ) by {
        if occurs_at(whole, header_break(), before) {
            assert(whole.subrange(before, before + 4)[0] == whole[before]);
            assert(whole.subrange(before, before + 4)[2] == whole[before + 2]);
            assert(whole[before] == bytes[before]);
            assert(bytes[before] == head[before] as u8);
            assert(head[before] == '\r');
            assert(before == status.len());
            assert(whole[before + 2] == bytes[before + 2]);
            assert(bytes[before + 2] == head[before + 2] as u8);
            assert(head[before + 2] == '\r');
        }
    }
    lemma_first_occurrence(whole, header_break(), end);
}

proof fn lemma_head_length(status: Seq<char>, name: Seq<char>, gap: Seq<char>, length: usize)
    requires
        is_status_line(status),
        is_length_name(name),
        is_blank(gap),
    ensures
        first_length(text_lines(length_head(status, name, gap, length as nat))) == Some(
            length as nat,
        ),
{
    let line = name + seq![':'] + (gap + decimal(length as nat));
    lemma_status_line(status);
    lemma_length_line(name, gap, length);
    lemma_lines_step(status, line);
    lemma_head_chars(status, name, gap, length as nat);
    let head = length_head(status, name, gap, length as nat);
    assert forall|i: int| 0 <= i < line.len() implies #[trigger] line[i] != '\n' by {
        assert(line[i] == head[i + status.len() + 2]);
    }
    lemma_last_line(line);
    reveal_with_fuel(first_length, 3);
    let lines = seq![status] + seq![line];
    assert(lines.drop_first() =~= seq![line]);
}

proof fn lemma_response(
    head: Seq<char>,
    length: usize,
    body: Seq<u8>,
    received: &[u8],
    ended: bool,
    step: ResponseStep,
)
    requires
        call_ensures(read_response, (received, ended), step),
        encode_utf8(head).len() == head.len(),
        first_occurrence(encode_utf8(head) + header_break(), header_break()) == Some(
            head.len() as int,
        ),
        first_length(text_lines(head)) == Some(length as nat),
        received@ == encode_utf8(head) + header_break() + body,
    ensures
        body.len() < length && !ended <==> step is ReadMore,
        body.len() < length && ended ==> step is Failed && step->Failed_0@
            == "本地主题通道响应体提前结束"@,
        body.len() >= length && !"HTTP/1.1 200"@.is_prefix_of(head) ==> step is Failed
            && step->Failed_0@ == "本地主题通道请求失败："@ + head,
        body.len() >= length && "HTTP/1.1 200"@.is_prefix_of(head) ==> (step matches
            ResponseStep::Complete { start, end } && start <= end <= received@.len()
            && received@.subrange(start as int, end as int) == body.take(length as int)),
{
    assert(valid_utf8(encode_utf8(head)) && decode_utf8(encode_utf8(head)) == head) by {
        encode_utf8_valid_utf8(head);
        encode_utf8_decode_utf8(head);
    }
    let none = Seq::<u8>::empty();
    lemma_body_position(encode_utf8(head), body, none);
    assert(received@ =~= encode_utf8(head) + header_break() + body + none);
    let start = head.len() as int + 4;
    if body.len() >= length {
        assert(received@.subrange(start, start + length) =~= body.take(length as int));
    }
}

/// A response with a length among its headers, under whatever letters, is waited for until so many
/// bytes have come behind its head. It is then taken, with exactly these, where its status is 200,
/// and else refused with its head.
pub proof fn response_is_read_by_its_length(
    status: Seq<char>,
    name: Seq<char>,
    gap: Seq<char>,
    length: usize,
    body: Seq<u8>,
    received: &[u8],
    ended: bool,
    step: ResponseStep,
)
    requires
        call_ensures(read_response, (received, ended), step),
        is_status_line(status),
        is_length_name(name),
        is_blank(gap),
        received@ == encode_utf8(length_head(status, name, gap, length as nat)) + seq![
            13u8,
            10u8,
            13u8,
            10u8,
        ] + body,
    ensures
        body.len() < length && !ended <==> step is ReadMore,
        body.len() < length && ended ==> step is Failed && step->Failed_0@
            == "本地主题通道响应体提前结束"@,
        body.len() >= length && !"HTTP/1.1 200"@.is_prefix_of(
            length_head(status, name, gap, length as nat),
        ) ==> step is Failed && step->Failed_0@ == "本地主题通道请求失败："@ + length_head(
            status,
            name,
            gap,
            length as nat,
        ),
        body.len() >= length && "HTTP/1.1 200"@.is_prefix_of(
            length_head(status, name, gap, length as nat),
        ) ==> (step matches ResponseStep::Complete { start, end } && start <= end <= received@.len()
            && received@.subrange(start as int, end as int) == body.take(length as int)),
{
    let head = length_head(status, name, gap, length as nat);
    lemma_head_ends(status, name, gap, length as nat);
    lemma_head_length(status, name, gap, length);
    lemma_response(head, length, body, received, ended, step);
}

/// A response whose head is not complete is waited for, and refused once the stream has ended.
pub proof fn unfinished_head_is_waited_for(received: &[u8], ended: bool, step: ResponseStep)
    requires
        call_ensures(read_response, (received, ended), step),
        forall|at: int| !#[trigger] header_ends_at(received@, at),
    ensures
        ended <==> step is Failed,
        !ended <==> step is ReadMore,
        ended ==> step->Failed_0@ == "本地主题通道响应提前结束"@,
{
    let pattern = header_break();
    assert forall|at: int| !#[trigger] occurs_at(received@, pattern, at) by {
        if occurs_at(received@, pattern, at) {
            assert(received@.subrange(at, at + 4)[0] == received@[at]);
            assert(received@.subrange(at, at + 4)[1] == received@[at + 1]);
            assert(received@.subrange(at, at + 4)[2] == received@[at + 2]);
            assert(received@.subrange(at, at + 4)[3] == received@[at + 3]);
            assert(header_ends_at(received@, at));
        }
    }
    lemma_no_occurrence(received@, pattern);
}

/// The length of a body is what the first header line to give one says, whatever follows.
pub proof fn first_length_counts(
    status: Seq<char>,
    name: Seq<char>,
    gap: Seq<char>,
    length: usize,
    more: Seq<char>,
    headers: &str,
    found: Option<usize>,
)
    requires
        call_ensures(content_length, (headers,), found),
        is_status_line(status),
        is_length_name(name),
        is_blank(gap),
        headers@ == length_head(status, name, gap, length as nat) + "\r\n"@ + more,
    ensures
        found == Some(length),
{
    reveal_strlit("\r\n");
    let line = name + seq![':'] + (gap + decimal(length as nat));
    let rest = line + seq!['\r', '\n'] + more;
    assert(headers@ =~= status + seq!['\r', '\n'] + rest);
    lemma_status_line(status);
    lemma_length_line(name, gap, length);
    lemma_lines_step(status, rest);
    lemma_head_chars(status, name, gap, length as nat);
    let head = length_head(status, name, gap, length as nat);
    assert forall|i: int| 0 <= i < line.len() implies #[trigger] line[i] != '\n' by {
        assert(line[i] == head[i + status.len() + 2]);
    }
    lemma_decimal(length as nat);
    let digits = decimal(length as nat);
    assert(is_digit(digits[digits.len() - 1]));
    assert(line.last() == digits[digits.len() - 1]);
    lemma_lines_step(line, more);
    let lines = seq![status] + (seq![line] + text_lines(more));
    assert(lines.drop_first() =~= seq![line] + text_lines(more));
    reveal_with_fuel(first_length, 3);
}

/// A response that gives its body no length is refused.
pub proof fn response_needs_a_length(
    status: Seq<char>,
    body: Seq<u8>,
    received: &[u8],
    ended: bool,
    step: ResponseStep,
)
    requires
        call_ensures(read_response, (received, ended), step),
        is_status_line(status),
        received@ == encode_utf8(status) + seq![13u8, 10u8, 13u8, 10u8] + body,
    ensures
        step is Failed,
        step->Failed_0@ == "本地主题通道响应缺少 Content-Length"@,
{
    lemma_status_line(status);
    lemma_last_line(status);
    assert(is_ascii_chars(status));
    is_ascii_chars_encode_utf8(status);
    assert(valid_utf8(encode_utf8(status)) && decode_utf8(encode_utf8(status)) == status) by {
        encode_utf8_valid_utf8(status);
        encode_utf8_decode_utf8(status);
    }
    let bytes = encode_utf8(status);
    let end = bytes.len() as int;
    assert(received@.subrange(end, end + 4) =~= header_break());
    assert forall|before: int| 0 <= before < end implies !occurs_at(
        received@,
        header_break(),
        before,
    ) by {
        if occurs_at(received@, header_break(), before) {
            assert(received@.subrange(before, before + 4)[0] == received@[before]);
            assert(received@[before] == bytes[before]);
            assert(bytes[before] == status[before] as u8);
        }
    }
    lemma_first_occurrence(received@, header_break(), end);
    assert(received@.take(end) =~= bytes);
    reveal_with_fuel(first_length, 2);
    assert(seq![status].drop_first() =~= Seq::empty());
}

} // verus!
