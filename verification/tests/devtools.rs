//! The way to the page of the application.
use retheme_codex::devtools::{
    admit_address, find_codex_target, listening_query, parse_active_port, verify_loopback,
    wait_for_codex_target, wait_for_devtools, DevToolsTarget, DevToolsWait, Listing, TargetWait,
};
use retheme_codex::devtools_http::{
    content_length, read_response, write_devtools_request, ResponseStep,
};
use retheme_codex::endpoint::{
    admit_host, channel_endpoint, theme_channel_endpoint, ChannelAddress,
};
use retheme_codex::error::CodexError;

fn target(target_type: &str, url: &str, channel: &str) -> DevToolsTarget {
    DevToolsTarget {
        title: channel.to_owned(),
        target_type: target_type.to_owned(),
        url: url.to_owned(),
        web_socket_debugger_url: channel.to_owned(),
    }
}

#[test]
fn finds_the_first_page_of_the_application() {
    let page = "app://-/index.html";
    let targets = vec![
        target("worker", page, "ws://127.0.0.1:9/devtools/page/a"),
        target("page", "app://-/other.html", "ws://127.0.0.1:9/devtools/page/b"),
        target("page", page, "ws://127.0.0.1:99/devtools/page/c"),
        target("page", page, "ws://127.0.0.2:9/devtools/page/d"),
        target("page", page, "ws://127.0.0.1:9/devtools/page/e"),
        target("page", page, "ws://127.0.0.1:9/devtools/page/f"),
    ];
    let found = find_codex_target(targets, 9).expect("page");
    assert_eq!(found.web_socket_debugger_url, "ws://127.0.0.1:9/devtools/page/e");
    assert!(find_codex_target(Vec::new(), 9).is_none());
    let other = vec![target("page", page, "ws://127.0.0.1:9/devtools/page/e")];
    assert!(find_codex_target(other, 90).is_none());
}

#[test]
fn reads_the_port_that_the_application_leaves() {
    let (port, path) = parse_active_port("51234\r\n/devtools/browser/abc\n").unwrap();
    assert_eq!(port, 51234);
    assert_eq!(path, "/devtools/browser/abc");
    assert_eq!(parse_active_port("+7\n/devtools/browser/").unwrap().0, 7);
    for contents in ["", "65536\n/devtools/browser/a", "x", "-1", "7 \n/devtools/browser/a"] {
        let error = parse_active_port(contents).unwrap_err();
        assert_eq!(error.message(), "DevToolsActivePort 端口无效", "{contents}");
    }
    for contents in ["7", "7\n", "7\n/devtools/page/a", "7\n\n/devtools/browser/a"] {
        let error = parse_active_port(contents).unwrap_err();
        assert_eq!(error.message(), "DevToolsActivePort 目标路径无效", "{contents}");
    }
}

#[test]
fn waits_for_the_port_of_the_application() {
    let ready = "7\n/devtools/browser/a";
    assert!(matches!(wait_for_devtools(0, false, None), DevToolsWait::LookAgain));
    assert!(matches!(
        wait_for_devtools(19_999, false, Some(ready)),
        DevToolsWait::Ready { port: 7, .. }
    ));
    let message = |wait| match wait {
        DevToolsWait::Failed(error) => error.message().to_owned(),
        other => panic!("{other:?}"),
    };
    assert_eq!(
        message(wait_for_devtools(20_000, true, Some(ready))),
        "等待 ChatGPT 本地主题通道超时"
    );
    assert_eq!(message(wait_for_devtools(0, true, Some(ready))), "隔离 ChatGPT 提前退出");
    assert_eq!(message(wait_for_devtools(0, false, Some(""))), "DevToolsActivePort 端口无效");
}

#[test]
fn waits_for_the_page_of_the_application() {
    let page = || target("page", "app://-/index.html", "ws://127.0.0.1:9/devtools/page/e");
    assert!(matches!(wait_for_codex_target(0, false, None), TargetWait::LookAgain));
    match wait_for_codex_target(0, false, Some(page())) {
        TargetWait::Ready(found) => assert_eq!(found.url, "app://-/index.html"),
        other => panic!("{other:?}"),
    }
    let message = |wait| match wait {
        TargetWait::Failed(error) => error.message().to_owned(),
        other => panic!("{other:?}"),
    };
    assert_eq!(
        message(wait_for_codex_target(20_000, false, Some(page()))),
        "等待通过身份验证的 ChatGPT 页面目标超时"
    );
    assert_eq!(message(wait_for_codex_target(0, true, Some(page()))), "隔离 ChatGPT 提前退出");
}

#[test]
fn asks_for_the_addresses_that_the_application_listens_on() {
    assert_eq!(
        listening_query(12, 345),
        ["-nP", "-a", "-p", "12", "-iTCP:345", "-sTCP:LISTEN", "-Fn"]
    );
}

fn listed(succeeded: bool, output: &[u8]) -> Option<Result<Listing, String>> {
    Some(Ok(Listing { succeeded, output: output.to_vec() }))
}

#[test]
fn admits_the_loopback_address_alone() {
    let check = |listing| verify_loopback(true, &Ok(()), &listing, 345);
    assert!(check(listed(true, b"p12\nf3\nn127.0.0.1:345\nn127.0.0.1:345\n")).unwrap());
    let refused = check(listed(true, b"n127.0.0.1:345\nn*:345\n")).unwrap_err();
    assert_eq!(
        refused.message(),
        "本地主题通道未严格限定到 IPv4 回环地址：n127.0.0.1:345, n*:345"
    );
    let nothing = check(listed(true, b"p12\n")).unwrap_err();
    assert_eq!(nothing.message(), "本地主题通道未严格限定到 IPv4 回环地址：");
    let failed = check(listed(false, b"n127.0.0.1:345\n")).unwrap_err();
    assert_eq!(failed.message(), "无法确认本地主题通道实际监听地址");
    let garbled = check(listed(true, b"n\xff\n")).unwrap_err();
    assert_eq!(
        garbled.message(),
        "本地主题通道监听信息无效：invalid utf-8 sequence of 1 bytes from index 1"
    );
}

#[test]
fn the_application_is_checked_step_by_step() {
    let good = listed(true, b"n127.0.0.1:345\n");
    let message = |result: Result<bool, CodexError>| result.unwrap_err().message().to_owned();
    assert!(verify_loopback(true, &Ok(()), &None, 345).unwrap());
    assert_eq!(
        message(verify_loopback(false, &Ok(()), &good, 345)),
        "本地主题通道地址不是回环地址"
    );
    assert_eq!(
        message(verify_loopback(true, &Err("refused".into()), &good, 345)),
        "无法连接本地主题通道：refused"
    );
    assert_eq!(
        message(verify_loopback(true, &Ok(()), &Some(Err("no lsof".into())), 345)),
        "无法检查本地主题通道监听地址：no lsof"
    );
    assert!(admit_address(true).is_ok());
    assert_eq!(admit_address(false).unwrap_err().message(), "本地主题通道地址不是回环地址");
}

#[test]
fn asks_for_a_path_at_the_loopback_address() {
    assert_eq!(
        write_devtools_request(9222, "/json/list"),
        "GET /json/list HTTP/1.1\r\nHost: 127.0.0.1:9222\r\nConnection: close\r\n\r\n"
    );
}

fn failure(response: &[u8], ended: bool) -> String {
    match read_response(response, ended) {
        ResponseStep::Failed(error) => error.message().to_owned(),
        other => panic!("{other:?}"),
    }
}

#[test]
fn a_response_reads_back_whole_and_not_before() {
    let head = "HTTP/1.1 200 OK\r\nContent-Type: a:b\r\ncontent-LENGTH:  3 \r\nX: 1\r\n\r\n";
    let whole = format!("{head}abcd");
    for size in 0..head.len() + 3 {
        let received = &whole.as_bytes()[..size];
        assert!(matches!(read_response(received, false), ResponseStep::ReadMore), "{size}");
        let message = if size < head.len() {
            "本地主题通道响应提前结束"
        } else {
            "本地主题通道响应体提前结束"
        };
        assert_eq!(failure(received, true), message, "{size}");
    }
    for size in [head.len() + 3, whole.len()] {
        for ended in [false, true] {
            match read_response(&whole.as_bytes()[..size], ended) {
                ResponseStep::Complete { start, end } => assert_eq!(&whole[start..end], "abc"),
                other => panic!("{other:?}"),
            }
        }
    }
}

#[test]
fn refuses_responses_that_it_cannot_read() {
    assert_eq!(
        failure(b"HTTP/1.1 200 OK\r\nContent-Length: x\r\n\r\n", false),
        "本地主题通道响应缺少 Content-Length"
    );
    assert_eq!(failure(b"\r\n\r\n", false), "本地主题通道响应缺少 Content-Length");
    assert_eq!(
        failure(b"HTTP/1.1 404 Not Found\r\nContent-Length: 0\r\n\r\n", false),
        "本地主题通道请求失败：HTTP/1.1 404 Not Found\r\nContent-Length: 0"
    );
    assert_eq!(
        failure(b"HTTP/1.1 200 OK\r\nX: \xc3\r\n\r\n", false),
        "本地主题通道响应头无效：incomplete utf-8 byte sequence from index 20"
    );
    let huge = b"HTTP/1.1 200 OK\r\nContent-Length: 18446744073709551615\r\n\r\n";
    assert_eq!(failure(huge, true), "本地主题通道响应体提前结束");
    let beyond = b"HTTP/1.1 200 OK\r\nContent-Length: 18446744073709551616\r\n\r\n";
    assert_eq!(failure(beyond, true), "本地主题通道响应缺少 Content-Length");
}

#[test]
fn the_first_length_that_reads_counts() {
    assert_eq!(content_length("Content-Length: x\nContent-Length: 5\nContent-Length: 6"), Some(5));
    assert_eq!(content_length("Content-Lengths: 5"), None);
    assert_eq!(content_length("Content-Length 5"), None);
    assert_eq!(content_length(""), None);
}

#[test]
fn reads_where_a_channel_is_reached() {
    let endpoint = |url: &str| theme_channel_endpoint(url).map(|(host, port)| format!("{host} {port}"));
    assert_eq!(endpoint("ws://127.0.0.1:9222/devtools/page/a").unwrap(), "127.0.0.1 9222");
    assert_eq!(endpoint("ws://[::1]:7/a").unwrap(), "::1 7");
    assert_eq!(endpoint("ws://localhost/a").unwrap(), "localhost 80");
    assert_eq!(
        endpoint("wss://127.0.0.1:9222/a").unwrap_err().message(),
        "本地主题通道必须使用回环明文连接"
    );
    assert_eq!(
        endpoint("/devtools/page/a").unwrap_err().message(),
        "本地主题通道必须使用回环明文连接"
    );
    assert!(endpoint("ws://exa mple/").unwrap_err().message().starts_with("本地主题通道地址无效："));
}

#[test]
fn a_channel_needs_a_host() {
    let address = ChannelAddress { scheme: Some("ws".into()), host: None, port: None };
    assert_eq!(
        channel_endpoint(&address).unwrap_err().message(),
        "本地主题通道地址缺少主机"
    );
    let address =
        ChannelAddress { scheme: Some("ws".into()), host: Some("[[a[]]".into()), port: Some(3) };
    assert_eq!(channel_endpoint(&address).unwrap(), ("a[".to_owned(), 3));
}

#[test]
fn a_channel_must_lead_to_a_loopback_address() {
    assert!(admit_host(Some(true)).is_ok());
    assert_eq!(
        admit_host(Some(false)).unwrap_err().message(),
        "本地主题通道必须使用回环地址"
    );
    assert!(admit_host(None).is_err());
}
