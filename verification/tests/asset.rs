//! Assets of a theme and the requests for them.
use retheme_codex::asset::{sort_assets, AssetTable, ThemeRuntimeAsset};
use retheme_codex::asset_http::{
    admit_connection, answer_text, reply_body, serve_theme_asset_request, theme_asset_error,
    write_reply_head, AssetReply, RequestStep,
};

const ADDRESS: &str = "127.0.0.1:50123";

fn asset(path: &str, source: &str) -> ThemeRuntimeAsset {
    ThemeRuntimeAsset {
        path: path.into(),
        mime: "image/svg+xml".into(),
        source: source.as_bytes().to_vec(),
    }
}

fn get(path: &str, host: &str) -> String {
    format!("GET {path} HTTP/1.1\r\nHost: {host}\r\nConnection: close\r\n\r\n")
}

fn respond(table: &AssetTable, request: &str) -> Vec<u8> {
    match serve_theme_asset_request(table, request.as_bytes(), false) {
        RequestStep::Answer(reply) => {
            let mut response = write_reply_head(table, reply).into_bytes();
            if let Some(body) = reply_body(table, reply) {
                response.extend_from_slice(body);
            }
            response
        }
        other => panic!("{other:?}"),
    }
}

#[test]
fn serves_theme_assets_only_from_the_session_url() {
    let source = "<svg xmlns=\"http://www.w3.org/2000/svg\"/>";
    let table = AssetTable::new(ADDRESS, vec![asset("assets/test.svg", source)]).unwrap();
    let urls = table.asset_urls();
    assert_eq!(urls.len(), 1);
    assert_eq!(urls[0].0, "assets/test.svg");
    let url = &urls[0].1;
    assert!(url.starts_with("http://127.0.0.1:"));
    assert!(!url.contains("assets/test.svg"));
    let path = url.split_once(ADDRESS).expect("asset URL").1;

    let response = respond(&table, &get(path, ADDRESS));
    assert!(response.starts_with(b"HTTP/1.1 200 OK\r\n"));
    let cache_header = b"Cache-Control: private, no-store\r\n";
    assert!(response.windows(cache_header.len()).any(|window| window == cache_header));
    assert!(response.ends_with(source.as_bytes()));

    let response = respond(&table, &get(path, "localhost"));
    assert!(response.starts_with(b"HTTP/1.1 404 Not Found\r\n"));
    let revoke_url = table.revoke_url();
    let revoke_path = revoke_url.split_once(ADDRESS).expect("revoke URL").1;
    let response = respond(&table, &get(revoke_path, ADDRESS));
    assert!(response.starts_with(b"HTTP/1.1 204 No Content\r\n"));
}

#[test]
fn each_session_has_its_own_secret_token() {
    let first = AssetTable::new(ADDRESS, Vec::new()).unwrap();
    let second = AssetTable::new(ADDRESS, Vec::new()).unwrap();
    assert_eq!(first.token.len(), 64);
    assert!(first.token.chars().all(|digit| "0123456789abcdef".contains(digit)));
    assert_ne!(first.token, second.token);
}

#[test]
fn a_table_is_made_of_what_the_random_source_gives() {
    let made = AssetTable::with_random_token(ADDRESS, Ok(vec![0x0f, 0xa0]), vec![asset("a", "1")]);
    let table = made.unwrap();
    assert_eq!(table.address, ADDRESS);
    assert_eq!(table.token, "0fa0");
    assert_eq!(table.assets.len(), 1);
    let failed = AssetTable::with_random_token(ADDRESS, Err("no source".to_owned()), Vec::new());
    assert_eq!(failed.unwrap_err().message(), "no source");
}

#[test]
fn addresses_follow_the_order_of_the_paths() {
    let table = AssetTable::with_token(
        ADDRESS,
        &[0x00, 0xff, 0x1a],
        vec![asset("b", "1"), asset("a/b", "2"), asset("é", "3"), asset("b", "4"), asset("B", "5")],
    );
    assert_eq!(table.token, "00ff1a");
    let order: Vec<&[u8]> = table.assets.iter().map(|asset| asset.source.as_slice()).collect();
    assert_eq!(order, [b"5", b"2", b"1", b"4", b"3"]);
    assert_eq!(
        table.asset_urls()[2],
        ("b".to_owned(), "http://127.0.0.1:50123/00ff1a/2".to_owned())
    );
    assert_eq!(table.revoke_url(), "http://127.0.0.1:50123/00ff1a/revoke");
    assert_eq!(table.find_route("/00ff1a/4"), Some(4));
    assert_eq!(table.find_route("/00ff1a/5"), None);
    assert_eq!(table.find_route("/00ff1a/04"), None);
    assert_eq!(table.find_route("/00ff1a/revoke"), None);
}

#[test]
fn sorts_as_the_bytes_of_the_paths_do() {
    let paths = ["z", "", "\u{10000}", "a", "\u{ffff}", "ab", "Z", "aa"];
    let sorted = sort_assets(paths.iter().map(|path| asset(path, "")).collect());
    let mut expected = paths.to_vec();
    expected.sort();
    let found: Vec<&str> = sorted.iter().map(|asset| asset.path.as_str()).collect();
    assert_eq!(found, expected);
}

fn table() -> AssetTable {
    AssetTable::with_token(ADDRESS, &[0xab], vec![asset("x", "body")])
}

#[test]
fn a_head_request_gets_the_head_alone() {
    let table = table();
    let reply = answer_text(&table, "HEAD /ab/0 HTTP/1.1\r\nhOsT:\t127.0.0.1:50123 \r\n\r\n");
    assert_eq!(reply, AssetReply::Asset { index: 0, body: false });
    assert_eq!(reply_body(&table, reply), None);
    assert_eq!(
        write_reply_head(&table, reply),
        "HTTP/1.1 200 OK\r\nContent-Type: image/svg+xml\r\nContent-Length: 4\r\nCache-Control: private, no-store\r\nCross-Origin-Resource-Policy: cross-origin\r\nX-Content-Type-Options: nosniff\r\nContent-Security-Policy: default-src 'none'; style-src 'unsafe-inline'; img-src data:\r\nConnection: close\r\n\r\n"
    );
}

#[test]
fn a_head_is_a_get_without_the_body() {
    let table = table();
    let rests = [
        " /ab/0 HTTP/1.1\r\nHost: 127.0.0.1:50123\r\n\r\n",
        " /ab/1 HTTP/1.1\r\nHost: 127.0.0.1:50123\r\n\r\n",
        " /ab/revoke HTTP/1.1\r\nHost: 127.0.0.1:50123\r\n\r\n",
        " /ab/0 HTTP/1.1\r\nHost: localhost\r\n\r\n",
        " /ab/0 HTTP/1.0\r\nHost: 127.0.0.1:50123\r\n\r\n",
        "S /ab/0 HTTP/1.1\r\nHost: 127.0.0.1:50123\r\n\r\n",
        " /ab/0\r\nHost: 127.0.0.1:50123\r\n\r\n",
        "\r\n\r\n",
    ];
    for (at, rest) in rests.iter().enumerate() {
        let get = respond(&table, &format!("GET{rest}"));
        let mut head = respond(&table, &format!("HEAD{rest}"));
        if at == 0 {
            head.extend_from_slice(b"body");
        }
        assert_eq!(get, head, "{rest}");
    }
}

#[test]
fn other_requests_are_refused() {
    let table = table();
    let not_found = [
        "POST /ab/0 HTTP/1.1\r\nHost: 127.0.0.1:50123\r\n\r\n",
        "GET /ab/0 HTTP/1.0\r\nHost: 127.0.0.1:50123\r\n\r\n",
        "GET /ab/0 HTTP/1.1\r\n\r\n",
        "GET /ab/0 HTTP/1.1\r\nHost: 127.0.0.1:50124\r\n\r\n",
        "GET /ab/1 HTTP/1.1\r\nHost: 127.0.0.1:50123\r\n\r\n",
        "GET /cd/0 HTTP/1.1\r\nHost: 127.0.0.1:50123\r\n\r\n",
        "GET /cd/revoke HTTP/1.1\r\nHost: 127.0.0.1:50123\r\n\r\n",
        "get /ab/0 HTTP/1.1\r\nHost: 127.0.0.1:50123\r\n\r\n",
    ];
    for request in not_found {
        assert_eq!(answer_text(&table, request), AssetReply::NotFound, "{request}");
    }
    for request in ["", "GET /ab/0\r\nHost: 127.0.0.1:50123\r\n\r\n", "\r\n\r\n"] {
        assert_eq!(answer_text(&table, request), AssetReply::BadRequest, "{request}");
    }
    assert_eq!(
        serve_theme_asset_request(&table, b"GET \xff HTTP/1.1\r\n\r\n", false),
        RequestStep::Answer(AssetReply::BadRequest)
    );
}

#[test]
fn a_request_is_answered_once_its_header_is_complete() {
    let table = table();
    let request = get("/ab/0", ADDRESS);
    for size in 0..request.len() {
        let received = &request.as_bytes()[..size];
        assert_eq!(serve_theme_asset_request(&table, received, false), RequestStep::ReadMore);
        assert_eq!(serve_theme_asset_request(&table, received, true), RequestStep::Close);
    }
    assert_eq!(
        serve_theme_asset_request(&table, request.as_bytes(), false),
        RequestStep::Answer(AssetReply::Asset { index: 0, body: true })
    );
    let full = vec![b'a'; 8192];
    assert_eq!(
        serve_theme_asset_request(&table, &full, false),
        RequestStep::Answer(AssetReply::HeaderTooLarge)
    );
    assert_eq!(
        serve_theme_asset_request(&table, &full[1..], false),
        RequestStep::ReadMore
    );
}

#[test]
fn refusals_have_no_body() {
    let table = table();
    for (reply, head) in [
        (AssetReply::BadRequest, "HTTP/1.1 400 Bad Request"),
        (AssetReply::NotFound, "HTTP/1.1 404 Not Found"),
        (AssetReply::HeaderTooLarge, "HTTP/1.1 431 Request Header Fields Too Large"),
        (AssetReply::Unavailable, "HTTP/1.1 503 Service Unavailable"),
        (AssetReply::Revoked, "HTTP/1.1 204 No Content"),
    ] {
        assert_eq!(
            write_reply_head(&table, reply),
            format!("{head}\r\nContent-Length: 0\r\nCache-Control: no-store\r\nConnection: close\r\n\r\n")
        );
        assert_eq!(reply_body(&table, reply), None);
    }
    assert!(theme_asset_error(500, "Oops").starts_with("HTTP/1.1 500 Oops\r\n"));
}

#[test]
fn too_many_connections_are_turned_away() {
    assert_eq!(admit_connection(99), None);
    assert_eq!(admit_connection(100), Some(AssetReply::Unavailable));
    assert_eq!(admit_connection(usize::MAX), Some(AssetReply::Unavailable));
}
