//! The way to the page of the isolated application: the port that it listens on, and its page
//! among the targets that it offers there.
use vstd::prelude::*;
use vstd::utf8::{
    decode_utf8, encode_utf8, encode_utf8_decode_utf8, encode_utf8_valid_utf8, valid_utf8,
};

use crate::bytes::{decode_text, utf8_error};
use crate::decimal::{
    decimal, decimal_chars, decimal_reads_back, is_digit, lemma_decimal, parse_decimal,
    parsed_up_to,
};
use crate::error::CodexError;
use crate::text::{
    chars_of, join_texts, joined, lemma_last_line, lemma_lines_step, push_text, same_text,
    split_lines, string_views, text_begins_with, text_lines, text_of, views,
};
use crate::timing::STARTUP_TIMEOUT;

verus! {

/// A target that the application offers.
#[derive(Debug)]
pub struct DevToolsTarget {
    pub title: String,
    pub target_type: String,
    pub url: String,
    pub web_socket_debugger_url: String,
}

/// What the WebSocket address of a page at a port begins with.
pub open spec fn page_channel_prefix(port: nat) -> Seq<char> {
    "ws://127.0.0.1:"@ + decimal(port) + "/devtools/page/"@
}

/// Whether a target is the page of the application, on a channel at the port it was found at.
pub open spec fn is_codex_target(target: DevToolsTarget, port: nat) -> bool {
    &&& target.target_type@ == "page"@
    &&& target.url@ == "app://-/index.html"@
    &&& page_channel_prefix(port).is_prefix_of(target.web_socket_debugger_url@)
}

/// The first target that is the page of the application.
pub open spec fn first_codex_target(targets: Seq<DevToolsTarget>, port: nat) -> Option<
    DevToolsTarget,
>
    decreases targets.len(),
{
    if targets.len() == 0 {
        None
    } else if is_codex_target(targets[0], port) {
        Some(targets[0])
    } else {
        first_codex_target(targets.drop_first(), port)
    }
}

fn matches_codex_target(target: &DevToolsTarget, port: u16) -> (result: bool)
    ensures
        result == is_codex_target(*target, port as nat),
{
    let mut prefix = chars_of("ws://127.0.0.1:");
    let mut digits = decimal_chars(port as u128);
    prefix.append(&mut digits);
    push_text(&mut prefix, "/devtools/page/");
    same_text(target.target_type.as_str(), "page") && same_text(
        target.url.as_str(),
        "app://-/index.html",
    ) && text_begins_with(
        target.web_socket_debugger_url.as_str(),
        text_of(prefix.as_slice()).as_str(),
    )
}

/// Finds the page of the application among the targets at a port.
pub fn find_codex_target(targets: Vec<DevToolsTarget>, port: u16) -> (result: Option<
    DevToolsTarget,
>)
    ensures
        result == first_codex_target(targets@, port as nat),
{
    let ghost all = targets@;
    let mut rest = targets;
    let mut i: usize = 0;
    assert(all.skip(0) =~= all);
    while i < rest.len()
        invariant
            i <= rest@.len(),
            rest@ == all,
            all == targets@,
            first_codex_target(all, port as nat) == first_codex_target(
                all.skip(i as int),
                port as nat,
            ),
        decreases rest@.len() - i,
    {
        assert(all.skip(i as int)[0] == all[i as int]);
        if matches_codex_target(&rest[i], port) {
            return Some(rest.remove(i));
        }
        assert(all.skip(i as int).drop_first() =~= all.skip(i + 1));
        i += 1;
    }
    None
}

/// The page that is found is one of the targets, and it is the page of the application.
pub proof fn found_target_is_offered(targets: Seq<DevToolsTarget>, port: nat)
    ensures
        match first_codex_target(targets, port) {
            Some(target) => targets.contains(target) && is_codex_target(target, port),
            None => forall|i: int|
                0 <= i < targets.len() ==> !is_codex_target(#[trigger] targets[i], port),
        },
    decreases targets.len(),
{
    if targets.len() > 0 && !is_codex_target(targets[0], port) {
        let rest = targets.drop_first();
        found_target_is_offered(rest, port);
        match first_codex_target(rest, port) {
            Some(target) => {
                let i = choose|i: int| 0 <= i < rest.len() && rest[i] == target;
                assert(targets[i + 1] == target);
            },
            None => {
                assert forall|i: int| 0 <= i < targets.len() implies !is_codex_target(
                    #[trigger] targets[i],
                    port,
                ) by {
                    if i > 0 {
                        assert(rest[i - 1] == targets[i]);
                    }
                }
            },
        }
    } else if targets.len() > 0 {
        assert(targets[0] == first_codex_target(targets, port)->0);
    }
}

/// What the file says in which the application leaves its port: the port and the path of the
/// browser, or a message on what is wrong with it.
pub open spec fn active_port(contents: Seq<char>) -> Result<(nat, Seq<char>), Seq<char>> {
    let lines = text_lines(contents);
    if lines.len() == 0 || parsed_up_to(lines[0], u16::MAX as nat) is None {
        Err("DevToolsActivePort 端口无效"@)
    } else if lines.len() < 2 || !"/devtools/browser/"@.is_prefix_of(lines[1]) {
        Err("DevToolsActivePort 目标路径无效"@)
    } else {
        Ok((parsed_up_to(lines[0], u16::MAX as nat)->0, lines[1]))
    }
}

/// Reads the file in which the application leaves its port.
pub fn parse_active_port(contents: &str) -> (result: Result<(u16, String), CodexError>)
    ensures
        match result {
            Ok(found) => active_port(contents@) == Ok::<(nat, Seq<char>), Seq<char>>(
                (found.0 as nat, found.1@),
            ),
            Err(error) => active_port(contents@) == Err::<(nat, Seq<char>), Seq<char>>(error@),
        },
{
    let lines = split_lines(chars_of(contents).as_slice());
    let ghost all = views(lines@);
    assert(all.len() == lines@.len());
    if lines.len() == 0 {
        return Err(CodexError::new("DevToolsActivePort 端口无效"));
    }
    assert(all[0] == lines@[0]@);
    let port: u16 = match parse_decimal(lines[0].as_slice(), u16::MAX as u64) {
        Some(port) => port as u16,
        None => {
            return Err(CodexError::new("DevToolsActivePort 端口无效"));
        },
    };
    if lines.len() < 2 {
        return Err(CodexError::new("DevToolsActivePort 目标路径无效"));
    }
    assert(all[1] == lines@[1]@);
    let path = text_of(lines[1].as_slice());
    if !text_begins_with(path.as_str(), "/devtools/browser/") {
        return Err(CodexError::new("DevToolsActivePort 目标路径无效"));
    }
    Ok((port, path))
}

/// What the wait for the port of the application comes to: the port and the path of the browser,
/// a failure, or another look.
#[derive(Debug)]
pub enum DevToolsWait {
    LookAgain,
    Ready { port: u16, browser_path: String },
    Failed(CodexError),
}

/// One look at the application during the wait for its port, which it leaves in a file.
pub fn wait_for_devtools(
    elapsed_milliseconds: u64,
    exited: bool,
    contents: Option<&str>,
) -> (result: DevToolsWait)
    ensures
        match result {
            DevToolsWait::LookAgain => elapsed_milliseconds < STARTUP_TIMEOUT && !exited
                && contents is None,
            DevToolsWait::Ready { port, browser_path } => elapsed_milliseconds < STARTUP_TIMEOUT
                && !exited && contents is Some && active_port(contents->0@) == Ok::<
                (nat, Seq<char>),
                Seq<char>,
            >((port as nat, browser_path@)),
            DevToolsWait::Failed(error) => if elapsed_milliseconds >= STARTUP_TIMEOUT {
                error@ == "等待 ChatGPT 本地主题通道超时"@
            } else if exited {
                error@ == "隔离 ChatGPT 提前退出"@
            } else {
                contents is Some && active_port(contents->0@) == Err::<
                    (nat, Seq<char>),
                    Seq<char>,
                >(error@)
            },
        },
{
    if elapsed_milliseconds >= STARTUP_TIMEOUT {
        return DevToolsWait::Failed(CodexError::new("等待 ChatGPT 本地主题通道超时"));
    }
    if exited {
        return DevToolsWait::Failed(CodexError::new("隔离 ChatGPT 提前退出"));
    }
    match contents {
        Some(contents) => match parse_active_port(contents) {
            Ok((port, browser_path)) => DevToolsWait::Ready { port, browser_path },
            Err(error) => DevToolsWait::Failed(error),
        },
        None => DevToolsWait::LookAgain,
    }
}

/// What the wait for the page of the application comes to: the page, a failure, or another look.
#[derive(Debug)]
pub enum TargetWait {
    LookAgain,
    Ready(DevToolsTarget),
    Failed(CodexError),
}

/// One look at the application during the wait for its page.
pub fn wait_for_codex_target(
    elapsed_milliseconds: u64,
    exited: bool,
    found: Option<DevToolsTarget>,
) -> (result: TargetWait)
    ensures
        match result {
            TargetWait::LookAgain => elapsed_milliseconds < STARTUP_TIMEOUT && !exited
                && found is None,
            TargetWait::Ready(target) => elapsed_milliseconds < STARTUP_TIMEOUT && !exited
                && found == Some(target),
            TargetWait::Failed(error) => if elapsed_milliseconds >= STARTUP_TIMEOUT {
                error@ == "等待通过身份验证的 ChatGPT 页面目标超时"@
            } else {
                exited && error@ == "隔离 ChatGPT 提前退出"@
            },
        },
{
    if elapsed_milliseconds >= STARTUP_TIMEOUT {
        return TargetWait::Failed(CodexError::new("等待通过身份验证的 ChatGPT 页面目标超时"));
    }
    if exited {
        return TargetWait::Failed(CodexError::new("隔离 ChatGPT 提前退出"));
    }
    match found {
        Some(target) => TargetWait::Ready(target),
        None => TargetWait::LookAgain,
    }
}

/// The arguments with which `lsof` lists the addresses that a process listens on at a port.
pub open spec fn listening_arguments(process_id: nat, port: nat) -> Seq<Seq<char>> {
    seq![
        "-nP"@,
        "-a"@,
        "-p"@,
        decimal(process_id),
        "-iTCP:"@ + decimal(port),
        "-sTCP:LISTEN"@,
        "-Fn"@,
    ]
}

/// The arguments with which `lsof` lists the addresses that a process listens on at a port.
pub fn listening_query(process_id: u32, port: u16) -> (result: Vec<String>)
    ensures
        string_views(result@) == listening_arguments(process_id as nat, port as nat),
{
    let mut selection = chars_of("-iTCP:");
    let mut digits = decimal_chars(port as u128);
    selection.append(&mut digits);
    let mut arguments: Vec<String> = Vec::new();
    arguments.push("-nP".to_owned());
    arguments.push("-a".to_owned());
    arguments.push("-p".to_owned());
    arguments.push(text_of(decimal_chars(process_id as u128).as_slice()));
    arguments.push(text_of(selection.as_slice()));
    arguments.push("-sTCP:LISTEN".to_owned());
    arguments.push("-Fn".to_owned());
    assert(string_views(arguments@) =~= listening_arguments(process_id as nat, port as nat));
    arguments
}

/// The lines among some lines that name an address.
pub open spec fn address_lines(lines: Seq<Seq<char>>) -> Seq<Seq<char>>
    decreases lines.len(),
{
    if lines.len() == 0 {
        Seq::empty()
    } else if lines[0].len() > 0 && lines[0][0] == 'n' {
        seq![lines[0]] + address_lines(lines.drop_first())
    } else {
        address_lines(lines.drop_first())
    }
}

/// The line that names the IPv4 loopback address at a port.
pub open spec fn loopback_line(port: nat) -> Seq<char> {
    "n127.0.0.1:"@ + decimal(port)
}

/// Whether every line that names an address names the IPv4 loopback address, and at least one does.
pub open spec fn only_loopback(addresses: Seq<Seq<char>>, port: nat) -> bool {
    &&& addresses.len() > 0
    &&& forall|i: int| 0 <= i < addresses.len() ==> #[trigger] addresses[i] == loopback_line(port)
}

fn read_address_lines(listing: &str) -> (result: Vec<String>)
    ensures
        string_views(result@) == address_lines(text_lines(listing@)),
{
    let lines = split_lines(chars_of(listing).as_slice());
    let ghost all = views(lines@);
    let mut addresses: Vec<String> = Vec::new();
    let mut i: usize = 0;
    proof {
        assert(all.skip(0) =~= all);
        assert(string_views(addresses@) + address_lines(all) =~= address_lines(all));
    }
    while i < lines.len()
        invariant
            i <= lines@.len(),
            all == views(lines@),
            string_views(addresses@) + address_lines(all.skip(i as int)) == address_lines(all),
        decreases lines@.len() - i,
    {
        let ghost rest = all.skip(i as int);
        let ghost before = string_views(addresses@);
        assert(rest[0] == lines@[i as int]@);
        assert(rest.drop_first() =~= all.skip(i + 1));
        if lines[i].len() > 0 && lines[i][0] == 'n' {
            addresses.push(text_of(lines[i].as_slice()));
            assert(string_views(addresses@) =~= before.push(lines@[i as int]@));
            assert(string_views(addresses@) + address_lines(all.skip(i + 1)) =~= before
                + address_lines(rest));
        }
        i += 1;
    }
    assert(all.skip(i as int) =~= Seq::<Seq<char>>::empty());
    assert(string_views(addresses@) =~= address_lines(all));
    addresses
}

/// What `lsof` has given back.
#[derive(Debug)]
pub struct Listing {
    /// Whether it has ended as it should.
    pub succeeded: bool,
    pub output: Vec<u8>,
}

/// What a listing amounts to: nothing, where all addresses that the process listens on at the port
/// are the IPv4 loopback address, or a message on what is wrong with it.
pub open spec fn listing_outcome(succeeded: bool, output: Seq<u8>, port: nat) -> Option<Seq<char>> {
    if !succeeded {
        Some("无法确认本地主题通道实际监听地址"@)
    } else if !valid_utf8(output) {
        Some("本地主题通道监听信息无效："@ + utf8_error(output))
    } else {
        let addresses = address_lines(text_lines(decode_utf8(output)));
        if only_loopback(addresses, port) {
            None
        } else {
            Some(
                "本地主题通道未严格限定到 IPv4 回环地址："@ + joined(addresses, ", "@),
            )
        }
    }
}

fn check_listing(succeeded: bool, listing: &[u8], port: u16) -> (result: Result<(), CodexError>)
    ensures
        match result {
            Ok(()) => listing_outcome(succeeded, listing@, port as nat) is None,
            Err(error) => listing_outcome(succeeded, listing@, port as nat) == Some(error@),
        },
{
    if !succeeded {
        return Err(CodexError::new("无法确认本地主题通道实际监听地址"));
    }
    let endpoints = match decode_text(listing) {
        Ok(endpoints) => endpoints,
        Err(message) => {
            return Err(
                CodexError::detailed("本地主题通道监听信息无效：", message.as_str()),
            );
        },
    };
    let mut expected = chars_of("n127.0.0.1:");
    let mut digits = decimal_chars(port as u128);
    expected.append(&mut digits);
    let expected = text_of(expected.as_slice());
    let addresses = read_address_lines(endpoints.as_str());
    let ghost all = string_views(addresses@);
    let mut loopback_only: bool = addresses.len() > 0;
    let mut i: usize = 0;
    while i < addresses.len()
        invariant
            i <= addresses@.len(),
            all == string_views(addresses@),
            expected@ == loopback_line(port as nat),
            loopback_only == (all.len() > 0 && forall|j: int|
                0 <= j < i ==> #[trigger] all[j] == loopback_line(port as nat)),
        decreases addresses@.len() - i,
    {
        assert(all[i as int] == addresses@[i as int]@);
        if !same_text(addresses[i].as_str(), expected.as_str()) {
            loopback_only = false;
        }
        i += 1;
    }
    if loopback_only {
        Ok(())
    } else {
        Err(
            CodexError::detailed(
                "本地主题通道未严格限定到 IPv4 回环地址：",
                join_texts(addresses.as_slice(), ", ").as_str(),
            ),
        )
    }
}

/// Refuses an address of the theme channel that is not a loopback address. No connection to such an
/// address is tried.
pub fn admit_address(is_loopback: bool) -> (result: Result<(), CodexError>)
    ensures
        match result {
            Ok(()) => is_loopback,
            Err(error) => !is_loopback && error@ == "本地主题通道地址不是回环地址"@,
        },
{
    if is_loopback {
        Ok(())
    } else {
        Err(CodexError::new("本地主题通道地址不是回环地址"))
    }
}

/// What the check of the address that the application listens on amounts to: nothing, or a message
/// on the first thing that is wrong. The address must be a loopback address; it must take a
/// connection; and where the platform can list the addresses that the process listens on, the
/// listing must be in order.
pub open spec fn loopback_outcome(
    is_loopback: bool,
    connected: Result<(), String>,
    listing: Option<Result<Listing, String>>,
    port: nat,
) -> Option<Seq<char>> {
    if !is_loopback {
        Some("本地主题通道地址不是回环地址"@)
    } else {
        match (connected, listing) {
            (Err(message), _) => Some("无法连接本地主题通道："@ + message@),
            (Ok(()), None) => None,
            (Ok(()), Some(Err(message))) => Some(
                "无法检查本地主题通道监听地址："@ + message@,
            ),
            (Ok(()), Some(Ok(listing))) => listing_outcome(
                listing.succeeded,
                listing.output@,
                port,
            ),
        }
    }
}

/// Makes sure that the application is reached at a loopback address and listens nowhere else, by
/// whether its address is a loopback address, what a connection to it came to, and what `lsof` has
/// listed, on a platform that has it. Messages are those of the errors with which a step failed.
pub fn verify_loopback(
    is_loopback: bool,
    connected: &Result<(), String>,
    listing: &Option<Result<Listing, String>>,
    port: u16,
) -> (result: Result<bool, CodexError>)
    ensures
        match result {
            Ok(loopback_only) => loopback_only && loopback_outcome(
                is_loopback,
                *connected,
                *listing,
                port as nat,
            ) is None,
            Err(error) => loopback_outcome(is_loopback, *connected, *listing, port as nat) == Some(
                error@,
            ),
        },
{
    if let Err(error) = admit_address(is_loopback) {
        return Err(error);
    }
    if let Err(message) = connected {
        return Err(CodexError::detailed("无法连接本地主题通道：", message.as_str()));
    }
    match listing {
        Some(Ok(listing)) => match check_listing(
            listing.succeeded,
            listing.output.as_slice(),
            port,
        ) {
            Ok(()) => Ok(true),
            Err(error) => Err(error),
        },
        Some(Err(message)) => Err(
            CodexError::detailed("无法检查本地主题通道监听地址：", message.as_str()),
        ),
        None => Ok(true),
    }
}

/// An application passes the check only where its address is a loopback address that takes
/// connections, and, where the addresses it listens on are listed, at least one is listed and each
/// is the IPv4 loopback address at its port.
pub proof fn verified_application_listens_on_loopback_alone(
    is_loopback: bool,
    connected: Result<(), String>,
    listing: Option<Result<Listing, String>>,
    port: nat,
)
    requires
        loopback_outcome(is_loopback, connected, listing, port) is None,
    ensures
        is_loopback,
        connected is Ok,
        listing is Some ==> {
            &&& listing->0 is Ok
            &&& listing->0->Ok_0.succeeded
            &&& only_loopback(
                address_lines(text_lines(decode_utf8(listing->0->Ok_0.output@))),
                port,
            )
        },
{
}

/// Whether a target is a page that shows the start of the application, on a channel to it at a port
/// of the loopback address.
pub open spec fn is_page_of_application(target: DevToolsTarget, port: u16) -> bool {
    &&& target.target_type@ == "page"@
    &&& target.url@ == "app://-/index.html"@
    &&& ("ws://127.0.0.1:"@ + decimal(port as nat) + "/devtools/page/"@).is_prefix_of(
        target.web_socket_debugger_url@,
    )
}

/// The page of the application is the first target that is one, and there is none where no target is.
pub proof fn first_page_of_the_application_is_found(
    targets: Vec<DevToolsTarget>,
    port: u16,
    at: int,
    found: Option<DevToolsTarget>,
)
    requires
        call_ensures(find_codex_target, (targets, port), found),
    ensures
        0 <= at < targets@.len() && is_page_of_application(targets@[at], port) && (forall|
            before: int,
        |
            0 <= before < at ==> !is_page_of_application(#[trigger] targets@[before], port))
            ==> found == Some(targets@[at]),
        (forall|i: int|
            0 <= i < targets@.len() ==> !is_page_of_application(#[trigger] targets@[i], port))
            ==> found is None,
{
    if 0 <= at < targets@.len() && is_page_of_application(targets@[at], port) && (forall|
        before: int,
    |
        0 <= before < at ==> !is_page_of_application(#[trigger] targets@[before], port)) {
        lemma_first_target(targets@, port, at);
    }
    found_target_is_offered(targets@, port as nat);
    if found is Some {
        let i = choose|i: int| 0 <= i < targets@.len() && targets@[i] == found->0;
        assert(is_page_of_application(targets@[i], port));
    }
}

proof fn lemma_first_target(targets: Seq<DevToolsTarget>, port: u16, at: int)
    requires
        0 <= at < targets.len(),
        is_page_of_application(targets[at], port),
        forall|before: int|
            0 <= before < at ==> !is_page_of_application(#[trigger] targets[before], port),
    ensures
        first_codex_target(targets, port as nat) == Some(targets[at]),
    decreases at,
{
    if at > 0 {
        let rest = targets.drop_first();
        assert(!is_page_of_application(targets[0], port));
        assert forall|before: int| 0 <= before < at - 1 implies !is_page_of_application(
            #[trigger] rest[before],
            port,
        ) by {
            assert(rest[before] == targets[before + 1]);
        }
        lemma_first_target(rest, port, at - 1);
    }
}

/// The file with a port in its first line and a path of the browser in its second one is read as
/// these two, whatever follows, unless the port or the path is none.
pub proof fn active_port_reads_back(
    port: nat,
    path: Seq<char>,
    rest: Seq<char>,
    contents: &str,
    found: Result<(u16, String), CodexError>,
)
    requires
        call_ensures(parse_active_port, (contents,), found),
        !path.contains('\n'),
        path.len() > 0,
        path.last() != '\r',
        contents@ == decimal(port) + "\n"@ + path || contents@ == decimal(port) + "\n"@ + path
            + "\n"@ + rest || contents@ == decimal(port) + "\r\n"@ + path + "\r\n"@ + rest,
    ensures
        port <= 65535 && "/devtools/browser/"@.is_prefix_of(path) ==> (found matches Ok(pair)
            && pair.0 == port && pair.1@ == path),
        port > 65535 ==> found is Err && found->Err_0@ == "DevToolsActivePort 端口无效"@,
        port <= 65535 && !"/devtools/browser/"@.is_prefix_of(path) ==> found is Err && found->Err_0@
            == "DevToolsActivePort 目标路径无效"@,
{
    reveal_strlit("\n");
    reveal_strlit("\r\n");
    assert("\n"@ =~= seq!['\n']);
    assert("\r\n"@ =~= seq!['\r', '\n']);
    lemma_decimal(port);
    decimal_reads_back(port);
    let digits = decimal(port);
    assert forall|i: int| 0 <= i < digits.len() implies #[trigger] digits[i] != '\n' by {
        assert(is_digit(digits[i]));
    }
    assert(is_digit(digits[digits.len() - 1]));
    let first = path;
    let second = path + seq!['\n'] + rest;
    let third = path + seq!['\r', '\n'] + rest;
    lemma_lines_step(digits, first);
    lemma_lines_step(digits, second);
    lemma_lines_step(digits, third);
    lemma_lines_step(path, rest);
    lemma_last_line(path);
    if contents@ == digits + "\n"@ + path {
        assert(contents@ =~= digits + seq!['\n'] + first);
    } else if contents@ == digits + "\n"@ + path + "\n"@ + rest {
        assert(contents@ =~= digits + seq!['\n'] + second);
    } else {
        assert(contents@ =~= digits + seq!['\r', '\n'] + third);
    }
    let lines = text_lines(contents@);
    assert(lines[0] == digits);
    assert(lines[1] == path);
}

/// The wait for the port ends after twenty seconds, or when the application has ended, and else with
/// what the file says once it is there.
pub proof fn wait_for_the_port_goes_by_the_file(
    elapsed_milliseconds: u64,
    exited: bool,
    contents: Option<&str>,
    read: Result<(u16, String), CodexError>,
    outcome: DevToolsWait,
)
    requires
        call_ensures(wait_for_devtools, (elapsed_milliseconds, exited, contents), outcome),
        contents matches Some(text) ==> call_ensures(parse_active_port, (text,), read),
    ensures
        elapsed_milliseconds >= 20_000 ==> outcome is Failed && outcome->Failed_0@
            == "等待 ChatGPT 本地主题通道超时"@,
        elapsed_milliseconds < 20_000 && exited ==> outcome is Failed && outcome->Failed_0@
            == "隔离 ChatGPT 提前退出"@,
        elapsed_milliseconds < 20_000 && !exited ==> match contents {
            None => outcome is LookAgain,
            Some(_) => match read {
                Ok(pair) => outcome is Ready && outcome->port == pair.0 && outcome->browser_path@
                    == pair.1@,
                Err(error) => outcome is Failed && outcome->Failed_0@ == error@,
            },
        },
{
}

/// The wait for the page ends after twenty seconds, or when the application has ended, and else once
/// the page is found, with that page.
pub proof fn wait_for_the_page_ends_with_the_page(
    elapsed_milliseconds: u64,
    exited: bool,
    found: Option<DevToolsTarget>,
    outcome: TargetWait,
)
    requires
        call_ensures(wait_for_codex_target, (elapsed_milliseconds, exited, found), outcome),
    ensures
        elapsed_milliseconds >= 20_000 ==> outcome is Failed && outcome->Failed_0@
            == "等待通过身份验证的 ChatGPT 页面目标超时"@,
        elapsed_milliseconds < 20_000 && exited ==> outcome is Failed && outcome->Failed_0@
            == "隔离 ChatGPT 提前退出"@,
        elapsed_milliseconds < 20_000 && !exited ==> match found {
            None => outcome is LookAgain,
            Some(target) => outcome is Ready && outcome->Ready_0 == target,
        },
{
}

/// `lsof` is asked for what one process listens on at one port over TCP, in the form of fields.
pub proof fn listing_is_asked_of_one_process_and_port(
    process_id: u32,
    port: u16,
    arguments: Vec<String>,
)
    requires
        call_ensures(listening_query, (process_id, port), arguments),
    ensures
        arguments@.len() == 7,
        arguments@[0]@ == "-nP"@,
        arguments@[1]@ == "-a"@,
        arguments@[2]@ == "-p"@,
        arguments@[3]@ == decimal(process_id as nat),
        arguments@[4]@ == "-iTCP:"@ + decimal(port as nat),
        arguments@[5]@ == "-sTCP:LISTEN"@,
        arguments@[6]@ == "-Fn"@,
{
    let all = string_views(arguments@);
    assert(all.len() == 7);
    assert(all[0] == arguments@[0]@);
    assert(all[1] == arguments@[1]@);
    assert(all[2] == arguments@[2]@);
    assert(all[3] == arguments@[3]@);
    assert(all[4] == arguments@[4]@);
    assert(all[5] == arguments@[5]@);
    assert(all[6] == arguments@[6]@);
}

/// Some lines, each with its end.
pub open spec fn written_lines(lines: Seq<Seq<char>>) -> Seq<char>
    decreases lines.len(),
{
    if lines.len() == 0 {
        Seq::empty()
    } else {
        lines[0] + seq!['\n'] + written_lines(lines.drop_first())
    }
}

/// Whether some texts are lines without their ends.
pub open spec fn are_lines(lines: Seq<Seq<char>>) -> bool {
    forall|i: int|
        0 <= i < lines.len() ==> !(#[trigger] lines[i]).contains('\n') && (lines[i].len() > 0
            ==> lines[i].last() != '\r')
}

proof fn lemma_written_lines(lines: Seq<Seq<char>>)
    requires
        are_lines(lines),
    ensures
        text_lines(written_lines(lines)) == lines,
    decreases lines.len(),
{
    if lines.len() == 0 {
        lemma_last_line(Seq::empty());
    } else {
        let rest = lines.drop_first();
        assert(!lines[0].contains('\n'));
        assert forall|i: int| 0 <= i < rest.len() implies !(#[trigger] rest[i]).contains('\n') && (
        rest[i].len() > 0 ==> rest[i].last() != '\r') by {
            assert(rest[i] == lines[i + 1]);
        }
        lemma_written_lines(rest);
        lemma_lines_step(lines[0], written_lines(rest));
    }
    assert(text_lines(written_lines(lines)) =~= lines);
}

proof fn lemma_address_lines(lines: Seq<Seq<char>>)
    ensures
        address_lines(lines) == lines.filter(|line: Seq<char>| line.len() > 0 && line[0] == 'n'),
    decreases lines.len(),
{
    let names = |line: Seq<char>| line.len() > 0 && line[0] == 'n';
    reveal(Seq::filter);
    if lines.len() > 0 {
        let first = seq![lines[0]];
        let rest = lines.drop_first();
        lemma_address_lines(rest);
        assert(lines =~= first + rest);
        Seq::filter_distributes_over_add(first, rest, names);
        assert(first.drop_last() =~= Seq::empty());
        assert(Seq::<Seq<char>>::empty().filter(names) =~= Seq::empty());
        assert(first.filter(names) =~= if names(lines[0]) {
            first
        } else {
            Seq::empty()
        });
        assert(address_lines(lines) =~= lines.filter(names));
    }
}

/// A listing passes exactly where, among its lines, those that begin with `n` are at least one and
/// all name the IPv4 loopback address at the port; else these lines are told.
pub proof fn listing_must_name_the_loopback_address_alone(
    lines: Seq<Seq<char>>,
    listing: Listing,
    port: u16,
    verified: Result<bool, CodexError>,
)
    requires
        call_ensures(
            verify_loopback,
            (true, &Ok::<(), String>(()), &Some(Ok::<Listing, String>(listing)), port),
            verified,
        ),
        are_lines(lines),
        listing.output@ == encode_utf8(written_lines(lines)),
    ensures
        !listing.succeeded ==> verified is Err && verified->Err_0@
            == "无法确认本地主题通道实际监听地址"@,
        listing.succeeded ==> {
            let addresses = lines.filter(|line: Seq<char>| line.len() > 0 && line[0] == 'n');
            let expected = "n127.0.0.1:"@ + decimal(port as nat);
            let passes = addresses.len() > 0 && forall|i: int|
                0 <= i < addresses.len() ==> #[trigger] addresses[i] == expected;
            &&& passes ==> verified is Ok && verified->Ok_0
            &&& !passes ==> verified is Err && verified->Err_0@
                == "本地主题通道未严格限定到 IPv4 回环地址："@ + joined(addresses, ", "@)
        },
{
    let text = written_lines(lines);
    encode_utf8_valid_utf8(text);
    encode_utf8_decode_utf8(text);
    lemma_written_lines(lines);
    lemma_address_lines(lines);
    assert(listing_outcome(listing.succeeded, listing.output@, port as nat) is None
        <==> verified is Ok);
}

/// Before anything is listed, the address must be a loopback address and take a connection; without
/// a listing that is enough, and a listing that failed is told.
pub proof fn address_must_be_loopback_and_connect(
    is_loopback: bool,
    connected: Result<(), String>,
    listing: Option<Result<Listing, String>>,
    port: u16,
    verified: Result<bool, CodexError>,
    admitted: Result<(), CodexError>,
)
    requires
        call_ensures(verify_loopback, (is_loopback, &connected, &listing, port), verified),
        call_ensures(admit_address, (is_loopback,), admitted),
    ensures
        is_loopback <==> admitted is Ok,
        !is_loopback ==> verified is Err && verified->Err_0@ == admitted->Err_0@ && verified->Err_0@
            == "本地主题通道地址不是回环地址"@,
        is_loopback && connected is Err ==> verified is Err && verified->Err_0@
            == "无法连接本地主题通道："@ + connected->Err_0@,
        is_loopback && connected is Ok && listing is None ==> verified is Ok && verified->Ok_0,
        is_loopback && connected is Ok && listing is Some && listing->0 is Err ==> verified is Err
            && verified->Err_0@ == "无法检查本地主题通道监听地址："@ + listing->0->Err_0@,
{
}

/// A listing that is not text is refused with what is wrong with it.
pub proof fn listing_must_be_text(
    listing: Listing,
    port: u16,
    verified: Result<bool, CodexError>,
)
    requires
        call_ensures(
            verify_loopback,
            (true, &Ok::<(), String>(()), &Some(Ok::<Listing, String>(listing)), port),
            verified,
        ),
        listing.succeeded,
        !valid_utf8(listing.output@),
    ensures
        verified is Err,
        verified->Err_0@ == "本地主题通道监听信息无效："@ + utf8_error(listing.output@),
{
}

} // verus!
