//! The installed application and its processes.
use retheme_codex::clock::ClockRange;
use retheme_codex::devtools::DevToolsTarget;
use retheme_codex::error::CodexError;
use retheme_codex::installation::{
    confirm_executable, detect, first_codex_package, info_path, inspect_macos_app,
    inspect_windows_package, is_codex_package, join_path, run_smoke_test, windows_executable_path,
    CodexInstallation, MacosPlace, PackageDetails, PlatformInspection, SmokeTestFindings,
    WindowsPackage, MACOS_APP_PATHS,
};
use retheme_codex::process::{has_exited, initialized_here, terminate, TerminationStep};
use retheme_codex::xml_date::{find_date_texts, reads_dates};

fn info(entries: &str) -> Result<Vec<u8>, String> {
    Ok(format!(
        "<?xml version=\"1.0\" encoding=\"UTF-8\"?>\n<plist version=\"1.0\"><dict>{entries}</dict></plist>"
    )
    .into_bytes())
}

fn entry(key: &str, value: &str) -> String {
    format!("<key>{key}</key><string>{value}</string>")
}

fn inspect_macos(
    app_path: &str,
    info: &Result<Vec<u8>, String>,
) -> Result<CodexInstallation, CodexError> {
    let clock = ClockRange::of_system();
    assert!(clock.holds_calendar());
    inspect_macos_app(app_path, info, &clock)
}

fn codex_entries(version: &str) -> String {
    entry("CFBundleIdentifier", "com.openai.codex")
        + &entry("CFBundleExecutable", "ChatGPT")
        + &entry("CFBundleShortVersionString", version)
}

#[test]
fn reads_the_application_from_its_description() {
    let entries = codex_entries("26.715.21316");
    let found = inspect_macos("/Applications/ChatGPT.app", &info(&entries)).unwrap();
    assert_eq!(found.app_name, "ChatGPT");
    assert_eq!(found.path, "/Applications/ChatGPT.app");
    assert_eq!(found.executable, "/Applications/ChatGPT.app/Contents/MacOS/ChatGPT");
    assert_eq!(found.bundle_id, "com.openai.codex");
    assert_eq!(found.app_user_model_id, None);
    assert_eq!(found.version(), "26.715.21316");
}

#[test]
fn refuses_other_applications() {
    let message = |info| inspect_macos("/A.app", &info).unwrap_err().message().to_owned();
    assert_eq!(message(info("")), "Info.plist 缺少 CFBundleIdentifier");
    assert_eq!(
        message(info("<key>CFBundleIdentifier</key><integer>1</integer>")),
        "Info.plist 缺少 CFBundleIdentifier"
    );
    assert_eq!(
        message(info(&entry("CFBundleIdentifier", "com.example"))),
        "/A.app 不是 ChatGPT"
    );
    let codex = entry("CFBundleIdentifier", "com.openai.codex");
    assert_eq!(message(info(&codex)), "Info.plist 缺少 CFBundleExecutable");
    assert_eq!(
        message(info(&(codex + &entry("CFBundleExecutable", "x")))),
        "Info.plist 缺少 CFBundleShortVersionString"
    );
    let list = b"<plist version=\"1.0\"><array/></plist>".to_vec();
    assert_eq!(message(Ok(list)), "/A.app/Contents/Info.plist 不是有效的 Info.plist");
    assert!(message(Ok(b"<plist".to_vec()))
        .starts_with("无法读取 /A.app/Contents/Info.plist："));
    assert_eq!(
        message(Err("gone".to_owned())),
        "无法读取 /A.app/Contents/Info.plist：gone"
    );
}

fn dated(tag: &str, date: &str) -> Result<Vec<u8>, String> {
    let name = tag.split(' ').next().unwrap();
    info(&(codex_entries("1") + &format!("<key>Built</key><{tag}>{date}</{name}>")))
}

#[test]
fn dates_are_read_as_far_as_they_can_be() {
    for date in [
        "1981-05-16T11:32:06Z",
        "0000-01-01T00:00:00+23:59",
        "0001-01-01T00:00:00Z",
        "1601-12-31T00:00:00Z",
        "1981-05-<!-- May -->16T11:32:06&#90;",
        "<!-- May -->1981-05-16T11:32:06Z",
        "&#49;981-05-16T11:32:06Z",
        "&#x31;981-05-16T11:32:06Z",
        "9999-12-<!-- end -->31T11:32:06&#90;",
        "9999-12-30T23:59:59-23:59",
        "9999-12-31T00:00:00-23:59",
        "9999-12-31T23:59:59-00:00",
        "9999-12-31T23:58:59.999-00:01",
        "9999-12-31T23:59:59Z",
        "9999-12-31T23:59:59+00:01",
    ] {
        assert_eq!(inspect_macos("/A.app", &dated("date", date)).unwrap().version(), "1", "{date}");
    }
    for tag in ["date", "date x='>'", "x:date"] {
        for date in [
            "9999-12-31T23:59:59-00:01",
            "9999-12-31 00:01:00-23:59",
            "9999-12-31&lt;23:59:59.5-00:01",
            "9999-12-31T23:59:59&#45;00:01",
            "9999-12-31T23:59:59&#x2D;00:01",
            "&#57;999-12-31T23:59:59-00:01",
            "9999<!-- <date> -->-12-31T23:59:59-<?a?>00<![CDATA[x]]>:01&none;",
        ] {
            assert_eq!(
                inspect_macos("/A.app", &dated(tag, date)).unwrap_err().message(),
                "无法读取 /A.app/Contents/Info.plist：日期无法读取",
                "{date}"
            );
        }
    }
}

#[test]
fn what_is_no_date_is_not_read_as_one() {
    let gone = "<date>9999-12-31T23:59:59-00:01</date>";
    let entries = codex_entries("1");
    for lists in [
        format!("<plist><!-- {gone} --><dict>{entries}</dict></plist>"),
        format!("<plist><?note {gone} ?><dict>{entries}</dict></plist>"),
        format!("<plist><![CDATA[{gone}]]><dict>{entries}</dict></plist>"),
        format!("<plist><dict><key>a</key><string><!-- {gone} --></string>{entries}</dict></plist>"),
        format!("<plist><dict><key>a</key><string>&lt;date>9999-12-31T23:59:59-00:01</string>{entries}</dict></plist>"),
        format!("<plist><dict x=\"{gone}\">{entries}</dict></plist>"),
        format!("<!DOCTYPE plist SYSTEM '{gone}'><plist><dict>{entries}</dict></plist>"),
        format!(
            "<!DOCTYPE plist [<!-- {gone} --><!ENTITY a '{gone}'><?b {gone}?><!ELEMENT c ANY>] >\
             <plist><dict>{entries}</dict></plist>"
        ),
    ] {
        let info = Ok(lists.clone().into_bytes());
        assert_eq!(inspect_macos("/A.app", &info).unwrap().version(), "1", "{lists}");
    }
    let text = format!(
        "{{ CFBundleIdentifier = \"com.openai.codex\"; CFBundleExecutable = ChatGPT; \
         CFBundleShortVersionString = \"{gone}\"; }}"
    );
    assert_eq!(inspect_macos("/A.app", &Ok(text.into_bytes())).unwrap().version(), gone);
    assert!(reads_dates(format!("bplist00{gone}").as_bytes()));
    assert!(reads_dates(format!("<!x>{gone}").as_bytes()));
    assert!(reads_dates(format!("<string>{gone}").as_bytes()));
    assert!(reads_dates(b"<date>9999-12-31T23:59:59-00:01"));
    assert!(!reads_dates(gone.as_bytes()));
    assert!(!reads_dates(format!(" <string/><a:key>x</a:key>&#32;{gone}").as_bytes()));
    assert_eq!(
        find_date_texts(b"<?xml?><date>1</date><date>a<!-- -->&amp;b&#300;</date>"),
        [b"1".to_vec(), b"a&b\xff\xff".to_vec()]
    );
}

#[test]
fn joins_paths_with_one_slash() {
    assert_eq!(join_path("/a", "b"), "/a/b");
    assert_eq!(join_path("/a/", "b"), "/a/b");
    assert_eq!(join_path("", "b"), "b");
    assert_eq!(join_path("/a", "/b"), "/b");
    assert_eq!(join_path("/a", ""), "/a/");
    assert_eq!(info_path("/A.app"), "/A.app/Contents/Info.plist");
}

#[test]
fn an_executable_must_be_a_file() {
    assert!(confirm_executable("/x", true).is_ok());
    assert_eq!(
        confirm_executable("/x", false).unwrap_err().message(),
        "ChatGPT 可执行文件不存在：/x"
    );
}

fn place(app_path: &str, info: Result<Vec<u8>, String>, executable_is_file: bool) -> MacosPlace {
    MacosPlace { app_path: app_path.into(), info, executable_is_file }
}

#[test]
fn detects_the_first_application_on_macos() {
    assert_eq!(MACOS_APP_PATHS, ["/Applications/ChatGPT.app", "/Applications/Codex.app"]);
    let places = vec![
        place("/1.app", Err("no".into()), true),
        place("/2.app", info(&codex_entries("2")), false),
        place("/3.app", info(&codex_entries("3")), true),
        place("/4.app", info(&codex_entries("4")), true),
    ];
    let found = detect(PlatformInspection::MacOs(places, ClockRange::of_system())).unwrap();
    assert_eq!(found.app_name, "ChatGPT");
    assert_eq!(found.path, "/3.app");
    assert_eq!(found.executable, "/3.app/Contents/MacOS/ChatGPT");
    assert_eq!(found.bundle_id, "com.openai.codex");
    assert_eq!(found.version(), "3");
    let none = vec![place("/2.app", info(&codex_entries("2")), false)];
    assert_eq!(
        detect(PlatformInspection::MacOs(none, ClockRange::of_system())).unwrap_err().message(),
        "未在 /Applications 中找到 ChatGPT"
    );
}

#[test]
fn detects_what_windows_has_found() {
    let packages = vec![windows_package("OpenAI.Codex", true, &["OpenAI.Codex_x!App"])];
    let found = detect(PlatformInspection::Windows(Ok(packages))).unwrap();
    assert_eq!(found.app_name, "ChatGPT");
    assert_eq!(found.bundle_id, "OpenAI.Codex_x");
    assert_eq!(found.app_user_model_id.as_deref(), Some("OpenAI.Codex_x!App"));
    let failed = detect(PlatformInspection::Windows(Err(CodexError::new("no"))));
    assert_eq!(failed.unwrap_err().message(), "no");
}

#[test]
fn detects_nothing_on_other_platforms() {
    assert_eq!(
        detect(PlatformInspection::Other).unwrap_err().message(),
        "当前平台暂不支持 ChatGPT 检测"
    );
}

fn windows_package(name: &str, executable_is_file: bool, ids: &[&str]) -> WindowsPackage {
    WindowsPackage {
        name: name.into(),
        details: Some(PackageDetails {
            path: "C:\\App".into(),
            executable_is_file,
            family_name: "OpenAI.Codex_x".into(),
            major: 1,
            minor: 0,
            build: 65535,
            revision: 20,
            app_user_model_ids: ids.iter().map(|id| id.to_string()).collect(),
        }),
    }
}

fn other_package(name: &str) -> WindowsPackage {
    WindowsPackage { name: name.into(), details: None }
}

#[test]
fn reads_the_application_from_its_windows_package() {
    let ids = ["Other!App", "OpenAI.Codex_xy!App", "OpenAI.Codex_x!App", "OpenAI.Codex_x!B"];
    let packages = [
        other_package("OpenAI.Codex.Beta"),
        windows_package("OpenAI.Codex", true, &ids),
        other_package("OpenAI.Codex"),
    ];
    let found = inspect_windows_package(&packages).unwrap();
    assert_eq!(found.app_name, "ChatGPT");
    assert_eq!(found.path, "C:\\App");
    assert_eq!(found.executable, "C:\\App\\app\\ChatGPT.exe");
    assert_eq!(found.bundle_id, "OpenAI.Codex_x");
    assert_eq!(found.app_user_model_id.as_deref(), Some("OpenAI.Codex_x!App"));
    assert_eq!(found.version(), "1.0.65535.20");

    let without = [windows_package("OpenAI.Codex", true, &["OpenAI.Codex_x"])];
    assert_eq!(
        inspect_windows_package(&without).unwrap_err().message(),
        "ChatGPT 安装包没有可激活的应用入口"
    );
    assert_eq!(
        inspect_windows_package(&[other_package("Other")]).unwrap_err().message(),
        "未找到 Microsoft Store 安装的 ChatGPT"
    );
    assert!(is_codex_package("OpenAI.Codex"));
    assert!(!is_codex_package("OpenAI.Codex.Beta"));
}

#[test]
fn the_first_windows_package_alone_decides() {
    let ids = ["OpenAI.Codex_x!App"];
    let packages = [
        windows_package("OpenAI.Codex", false, &ids),
        windows_package("OpenAI.Codex", true, &ids),
    ];
    assert_eq!(
        inspect_windows_package(&packages).unwrap_err().message(),
        "ChatGPT 可执行文件不存在：C:\\App\\app\\ChatGPT.exe"
    );
    let names = |names: &[&str]| names.iter().map(|name| name.to_string()).collect::<Vec<_>>();
    assert_eq!(first_codex_package(&names(&["A", "OpenAI.Codex", "OpenAI.Codex"])), Some(1));
    assert_eq!(first_codex_package(&names(&["A", "OpenAI.Codex_x"])), None);
}

#[test]
fn the_windows_executable_is_below_its_package() {
    assert_eq!(windows_executable_path("C:\\A"), "C:\\A\\app\\ChatGPT.exe");
    assert_eq!(windows_executable_path("C:\\A\\"), "C:\\A\\app\\ChatGPT.exe");
    assert_eq!(windows_executable_path("C:/A/"), "C:/A/app\\ChatGPT.exe");
    assert_eq!(windows_executable_path("C:"), "C:app\\ChatGPT.exe");
    assert_eq!(
        windows_executable_path("\\\\?\\C:\\A\\\\B\\"),
        "\\\\?\\C:\\A\\B\\app\\ChatGPT.exe"
    );
    assert_eq!(
        windows_executable_path("\\\\?\\C:\\A/"),
        "\\\\?\\C:\\A/\\app\\ChatGPT.exe"
    );
    assert_eq!(windows_executable_path("\\\\?\\C:"), "\\\\?\\C:\\app\\ChatGPT.exe");
    assert_eq!(
        windows_executable_path("\\\\?\\UNC\\s\\d\\\\A"),
        "\\\\?\\UNC\\s\\d\\A\\app\\ChatGPT.exe"
    );
    assert_eq!(windows_executable_path("\\\\s\\d"), "\\\\s\\d\\app\\ChatGPT.exe");
    assert_eq!(windows_executable_path("::"), "::\\app\\ChatGPT.exe");
    assert_eq!(windows_executable_path(""), "app\\ChatGPT.exe");
}

fn findings(probe_applied: bool, probe_removed: bool) -> SmokeTestFindings {
    SmokeTestFindings {
        app_version: "1".into(),
        browser_version: "2".into(),
        port: 3,
        target: DevToolsTarget {
            title: "4".into(),
            target_type: "page".into(),
            url: "5".into(),
            web_socket_debugger_url: "6".into(),
        },
        loopback_only: true,
        probe_applied,
        probe_removed,
        duration_ms: 7,
    }
}

#[test]
fn a_smoke_test_reports_a_probe_that_came_and_went() {
    let report = run_smoke_test(findings(true, true)).unwrap();
    assert_eq!(report.app_version, "1");
    assert_eq!(report.browser_version, "2");
    assert_eq!(report.port, 3);
    assert_eq!(report.target_title, "4");
    assert_eq!(report.target_url, "5");
    assert!(report.loopback_only && report.probe_applied && report.probe_removed);
    assert_eq!(report.duration_ms, 7);
    for (applied, removed) in [(false, true), (true, false), (false, false)] {
        assert_eq!(
            run_smoke_test(findings(applied, removed)).unwrap_err().message(),
            "本地主题通道没有完成应用与撤销闭环"
        );
    }
}

#[test]
fn processes_get_a_second_to_end() {
    assert_eq!(terminate(true, 999), TerminationStep::Wait);
    assert_eq!(terminate(true, 1000), TerminationStep::Kill);
    assert_eq!(terminate(false, 0), TerminationStep::Done);
    assert_eq!(terminate(false, 1000), TerminationStep::Done);
}

#[test]
fn reads_the_state_of_a_windows_process() {
    assert!(has_exited(5, 0).unwrap());
    assert!(!has_exited(5, 258).unwrap());
    assert_eq!(
        has_exited(5, 4294967295).unwrap_err().message(),
        "无法读取隔离 ChatGPT 进程 5 状态：等待结果 4294967295"
    );
}

#[test]
fn takes_down_only_what_it_has_set_up() {
    assert_eq!(initialized_here(0), Some(true));
    assert_eq!(initialized_here(1), Some(true));
    assert_eq!(initialized_here(0x80010106u32 as i32), Some(false));
    assert_eq!(initialized_here(0x80004005u32 as i32), None);
}
