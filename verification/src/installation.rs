//! The installed application: where it is and what it is.
use vstd::prelude::*;

use crate::clock::ClockRange;
use crate::decimal::{decimal, decimal_chars};
use crate::devtools::DevToolsTarget;
use crate::error::CodexError;
use crate::property_list::{
    parse_plist, plist_dictionary, plist_entries, plist_entry, plist_parsed, plist_text, PlistTree,
};
use crate::text::{
    chars_of, join_texts, joined, lemma_no_occurrence, lemma_pieces_step, occurs_at, pieces,
    push_text, same_text, slice_chars, split_pieces, string_views, text_begins_with, text_of, views,
};
use crate::xml_date::{dates_are_readable, reads_dates};

verus! {

/// The identifier of the application's bundle on macOS.
pub const CODEX_BUNDLE_ID: &'static str = "com.openai.codex";

/// The name of the application's package on Windows.
pub const CODEX_PACKAGE_NAME: &'static str = "OpenAI.Codex";

/// Where the application may be installed on macOS, in the order in which it is looked for.
pub const MACOS_APP_PATHS: [&'static str; 2] = [
    "/Applications/ChatGPT.app",
    "/Applications/Codex.app",
];

/// An installed application.
#[derive(Debug)]
pub struct CodexInstallation {
    pub app_name: String,
    pub path: String,
    pub executable: String,
    pub bundle_id: String,
    /// The application that Windows activates.
    pub app_user_model_id: Option<String>,
    pub version: String,
}

impl CodexInstallation {
    /// The version of the application.
    pub fn version(&self) -> (result: &str)
        ensures
            result@ == self.version@,
    {
        self.version.as_str()
    }
}

/// A path below a directory, with slashes; an absolute path stands for itself.
pub open spec fn path_below(directory: Seq<char>, path: Seq<char>) -> Seq<char> {
    if path.len() > 0 && path[0] == '/' {
        path
    } else if directory.len() == 0 || directory.last() == '/' {
        directory + path
    } else {
        directory + seq!['/'] + path
    }
}

/// A path below a directory.
pub fn join_path(directory: &str, path: &str) -> (result: String)
    ensures
        result@ == path_below(directory@, path@),
{
    let mut whole = chars_of(directory);
    let mut part = chars_of(path);
    if part.len() > 0 && part[0] == '/' {
        return path.to_owned();
    }
    if whole.len() > 0 && whole[whole.len() - 1] != '/' {
        whole.push('/');
    }
    whole.append(&mut part);
    assert(whole@ =~= path_below(directory@, path@));
    text_of(whole.as_slice())
}

/// The file that describes an application on macOS.
pub fn info_path(app_path: &str) -> (result: String)
    ensures
        result@ == path_below(app_path@, "Contents/Info.plist"@),
{
    join_path(app_path, "Contents/Info.plist")
}

/// The text under a key.
pub open spec fn entry_text(entries: Map<Seq<char>, PlistTree>, key: Seq<char>) -> Option<
    Seq<char>,
> {
    if entries.contains_key(key) {
        match entries[key] {
            PlistTree::Text(text) => Some(text),
            _ => None,
        }
    } else {
        None
    }
}

/// The text under a key of the file that describes an application.
pub fn plist_string<'a>(dictionary: &'a plist::Dictionary, key: &str) -> (result: Result<
    &'a str,
    CodexError,
>)
    ensures
        match result {
            Ok(text) => entry_text(plist_entries(*dictionary), key@) == Some(text@),
            Err(error) => entry_text(plist_entries(*dictionary), key@) is None && error@
                == "Info.plist 缺少 "@ + key@,
        },
{
    if let Some(value) = plist_entry(dictionary, key) {
        if let Some(text) = plist_text(value) {
            return Ok(text);
        }
    }
    Err(CodexError::detailed("Info.plist 缺少 ", key))
}

/// What the description of an application on macOS amounts to: its bundle, its executable and its
/// version, or a message on why it is not the one looked for.
pub struct BundleModel {
    pub executable: Seq<char>,
    pub bundle_id: Seq<char>,
    pub version: Seq<char>,
}

/// What the entries of a description amount to.
pub open spec fn bundle_of(app_path: Seq<char>, entries: Map<Seq<char>, PlistTree>) -> Result<
    BundleModel,
    Seq<char>,
> {
    match (
        entry_text(entries, "CFBundleIdentifier"@),
        entry_text(entries, "CFBundleExecutable"@),
        entry_text(entries, "CFBundleShortVersionString"@),
    ) {
        (None, _, _) => Err("Info.plist 缺少 "@ + "CFBundleIdentifier"@),
        (Some(bundle_id), executable, version) => if bundle_id != CODEX_BUNDLE_ID@ {
            Err(app_path + " 不是 ChatGPT"@)
        } else {
            match (executable, version) {
                (None, _) => Err("Info.plist 缺少 "@ + "CFBundleExecutable"@),
                (Some(_), None) => Err("Info.plist 缺少 "@ + "CFBundleShortVersionString"@),
                (Some(executable), Some(version)) => Ok(
                    BundleModel {
                        executable: path_below(
                            path_below(app_path, "Contents/MacOS"@),
                            executable,
                        ),
                        bundle_id,
                        version,
                    },
                ),
            }
        },
    }
}

/// What the description of an application amounts to, by what it parses to.
pub open spec fn inspected_bundle(
    app_path: Seq<char>,
    parsed: Result<PlistTree, Seq<char>>,
) -> Result<BundleModel, Seq<char>> {
    let path = path_below(app_path, "Contents/Info.plist"@);
    match parsed {
        Ok(PlistTree::Dictionary(entries)) => bundle_of(app_path, entries),
        Ok(_) => Err(path + " 不是有效的 Info.plist"@),
        Err(message) => Err("无法读取 "@ + path + "："@ + message),
    }
}

/// Whether an application on macOS is what a model says.
pub open spec fn is_macos_installation(
    installation: CodexInstallation,
    app_path: Seq<char>,
    bundle: BundleModel,
) -> bool {
    &&& installation.app_name@ == "ChatGPT"@
    &&& installation.path@ == app_path
    &&& installation.executable@ == bundle.executable
    &&& installation.bundle_id@ == bundle.bundle_id
    &&& installation.app_user_model_id is None
    &&& installation.version@ == bundle.version
}

fn describe(first: &str, second: &str, third: &str) -> (result: String)
    ensures
        result@ == first@ + second@ + third@,
{
    let mut chars = chars_of(first);
    push_text(&mut chars, second);
    push_text(&mut chars, third);
    text_of(chars.as_slice())
}

/// The application on macOS that the entries of its description describe.
pub fn macos_installation(app_path: &str, dictionary: &plist::Dictionary) -> (result: Result<
    CodexInstallation,
    CodexError,
>)
    ensures
        match (result, bundle_of(app_path@, plist_entries(*dictionary))) {
            (Ok(installation), Ok(bundle)) => is_macos_installation(
                installation,
                app_path@,
                bundle,
            ),
            (Err(error), Err(message)) => error@ == message,
            _ => false,
        },
{
    let bundle_id = match plist_string(dictionary, "CFBundleIdentifier") {
        Ok(bundle_id) => bundle_id,
        Err(error) => {
            return Err(error);
        },
    };
    if !same_text(bundle_id, CODEX_BUNDLE_ID) {
        return Err(CodexError::detailed(app_path, " 不是 ChatGPT"));
    }
    let executable_name = match plist_string(dictionary, "CFBundleExecutable") {
        Ok(executable_name) => executable_name,
        Err(error) => {
            return Err(error);
        },
    };
    let version = match plist_string(dictionary, "CFBundleShortVersionString") {
        Ok(version) => version,
        Err(error) => {
            return Err(error);
        },
    };
    let directory = join_path(app_path, "Contents/MacOS");
    Ok(
        CodexInstallation {
            app_name: "ChatGPT".to_owned(),
            path: app_path.to_owned(),
            executable: join_path(directory.as_str(), executable_name),
            bundle_id: bundle_id.to_owned(),
            app_user_model_id: None,
            version: version.to_owned(),
        },
    )
}

/// What the file that describes an application amounts to: where it was read, and the clock holds
/// all its dates may be, what its bytes do.
pub open spec fn inspected_file(
    app_path: Seq<char>,
    info: Result<Vec<u8>, String>,
    clock: ClockRange,
) -> Result<BundleModel, Seq<char>> {
    match info {
        Ok(bytes) => if clock.spans_calendar() && dates_are_readable(bytes@) {
            inspected_bundle(app_path, plist_parsed(bytes@))
        } else {
            inspected_bundle(app_path, Err("日期无法读取"@))
        },
        Err(message) => inspected_bundle(app_path, Err(message@)),
    }
}

/// The application on macOS that its description describes: the bytes of the file, or the message
/// of the error with which it was not read. Whether its executable is a file is not looked at.
pub fn inspect_macos_app(
    app_path: &str,
    info: &Result<Vec<u8>, String>,
    clock: &ClockRange,
) -> (result: Result<CodexInstallation, CodexError>)
    ensures
        match (result, inspected_file(app_path@, *info, *clock)) {
            (Ok(installation), Ok(bundle)) => is_macos_installation(
                installation,
                app_path@,
                bundle,
            ),
            (Err(error), Err(message)) => error@ == message,
            _ => false,
        },
{
    let path = info_path(app_path);
    let parsed = match info {
        Ok(bytes) => {
            if clock.holds_calendar() && reads_dates(bytes.as_slice()) {
                parse_plist(bytes.as_slice(), clock)
            } else {
                Err("日期无法读取".to_owned())
            }
        },
        Err(message) => Err(message.clone()),
    };
    let value = match parsed {
        Ok(value) => value,
        Err(message) => {
            let start = describe("无法读取 ", path.as_str(), "：");
            return Err(CodexError::detailed(start.as_str(), message.as_str()));
        },
    };
    match plist_dictionary(&value) {
        Some(dictionary) => macos_installation(app_path, dictionary),
        None => Err(CodexError::detailed(path.as_str(), " 不是有效的 Info.plist")),
    }
}

/// Passes an application on only where its executable is a file.
pub fn confirm_executable(executable: &str, is_file: bool) -> (result: Result<(), CodexError>)
    ensures
        match result {
            Ok(()) => is_file,
            Err(error) => !is_file && error@ == "ChatGPT 可执行文件不存在："@ + executable@,
        },
{
    if is_file {
        Ok(())
    } else {
        Err(CodexError::detailed("ChatGPT 可执行文件不存在：", executable))
    }
}

/// Whether a Windows package is that of the application.
pub fn is_codex_package(name: &str) -> (result: bool)
    ensures
        result == (name@ == CODEX_PACKAGE_NAME@),
{
    same_text(name, CODEX_PACKAGE_NAME)
}

/// What is read of a package on Windows.
#[derive(Debug)]
pub struct WindowsPackage {
    pub name: String,
    /// What else is read of the package of the application.
    pub details: Option<PackageDetails>,
}

/// What is read of the package of the application on Windows. Where its executable is not a file,
/// nothing behind that matters.
#[derive(Debug)]
pub struct PackageDetails {
    /// The directory in which the package is installed.
    pub path: String,
    pub executable_is_file: bool,
    pub family_name: String,
    pub major: u16,
    pub minor: u16,
    pub build: u16,
    pub revision: u16,
    /// The identifiers of the applications in the package that can be read.
    pub app_user_model_ids: Vec<String>,
}

/// Whether an index is that of the first package of the application.
pub open spec fn is_first_codex_package(names: Seq<Seq<char>>, at: int) -> bool {
    &&& 0 <= at < names.len()
    &&& names[at] == CODEX_PACKAGE_NAME@
    &&& forall|before: int|
        0 <= before < at ==> #[trigger] names[before] != CODEX_PACKAGE_NAME@
}

/// The first package of the application among the names of some packages.
pub fn first_codex_package(names: &[String]) -> (result: Option<usize>)
    ensures
        match result {
            Some(at) => is_first_codex_package(string_views(names@), at as int),
            None => !string_views(names@).contains(CODEX_PACKAGE_NAME@),
        },
{
    let ghost all = string_views(names@);
    let mut i: usize = 0;
    while i < names.len()
        invariant
            i <= names@.len(),
            all == string_views(names@),
            forall|j: int| 0 <= j < i ==> #[trigger] all[j] != CODEX_PACKAGE_NAME@,
        decreases names@.len() - i,
    {
        assert(all[i as int] == names@[i as int]@);
        if is_codex_package(names[i].as_str()) {
            return Some(i);
        }
        i += 1;
    }
    None
}

/// Whether a path below a Windows directory follows it without a separator: where the directory
/// ends in one, is empty, or is a bare drive.
pub open spec fn needs_no_separator(directory: Seq<char>) -> bool {
    ||| directory.len() == 0
    ||| directory.last() == '\\' || directory.last() == '/'
    ||| directory.len() == 2 && directory[1] == ':' && ('a' <= directory[0] <= 'z' || 'A'
        <= directory[0] <= 'Z')
}

/// Whether a Windows path is verbatim: it begins with `\\?\`.
pub open spec fn is_verbatim(path: Seq<char>) -> bool {
    path.len() >= 4 && path[0] == '\\' && path[1] == '\\' && path[2] == '?' && path[3] == '\\'
}

/// The end of the part of a path that goes on at a position: the next backslash, or the end of all.
pub open spec fn part_end(path: Seq<char>, at: int) -> int
    decreases path.len() - at,
{
    if at >= path.len() || path[at] == '\\' {
        at
    } else {
        part_end(path, at + 1)
    }
}

/// The end of what a verbatim path is relative to: a drive or a device, or a server and what it
/// shares.
pub open spec fn verbatim_root_end(path: Seq<char>) -> int {
    if path.len() >= 8 && path[4] == 'U' && path[5] == 'N' && path[6] == 'C' && (path[7] == '\\'
        || path[7] == '/') {
        let server = part_end(path, 8);
        let share = part_end(path, server + 1);
        if share > server + 1 {
            share
        } else {
            server
        }
    } else {
        part_end(path, 4)
    }
}

/// Some parts of a path, each behind a backslash. Empty ones do not count.
pub open spec fn part_path(parts: Seq<Seq<char>>) -> Seq<char>
    decreases parts.len(),
{
    if parts.len() == 0 {
        Seq::empty()
    } else if parts.last().len() == 0 {
        part_path(parts.drop_last())
    } else {
        part_path(parts.drop_last()) + seq!['\\'] + parts.last()
    }
}

/// A verbatim path without the empty parts that it may have.
pub open spec fn normal_verbatim(path: Seq<char>) -> Seq<char> {
    path.take(verbatim_root_end(path)) + part_path(
        pieces(path.skip(verbatim_root_end(path)), seq!['\\']),
    )
}

/// The executable of the application below the directory of its package on Windows.
pub open spec fn windows_executable(directory: Seq<char>) -> Seq<char> {
    if is_verbatim(directory) {
        normal_verbatim(directory) + seq!['\\'] + "app\\ChatGPT.exe"@
    } else if needs_no_separator(directory) {
        directory + "app\\ChatGPT.exe"@
    } else {
        directory + seq!['\\'] + "app\\ChatGPT.exe"@
    }
}

fn find_part_end(path: &[char], start: usize) -> (result: usize)
    requires
        start <= path@.len(),
    ensures
        result == part_end(path@, start as int),
        start <= result <= path@.len(),
{
    let mut at: usize = start;
    while at < path.len() && path[at] != '\\'
        invariant
            start <= at <= path@.len(),
            part_end(path@, start as int) == part_end(path@, at as int),
        decreases path@.len() - at,
    {
        at += 1;
    }
    at
}

fn find_verbatim_root_end(path: &[char]) -> (result: usize)
    requires
        path@.len() >= 4,
    ensures
        result == verbatim_root_end(path@),
        result <= path@.len(),
{
    let size: usize = path.len();
    if size >= 8 && path[4] == 'U' && path[5] == 'N' && path[6] == 'C' && (path[7] == '\\'
        || path[7] == '/') {
        let server: usize = find_part_end(path, 8);
        if server == size {
            return server;
        }
        let share: usize = find_part_end(path, server + 1);
        if share > server + 1 {
            share
        } else {
            server
        }
    } else {
        find_part_end(path, 4)
    }
}

fn normalize_verbatim(path: &[char]) -> (result: Vec<char>)
    requires
        is_verbatim(path@),
    ensures
        result@ == normal_verbatim(path@),
{
    let root_end: usize = find_verbatim_root_end(path);
    let separator: Vec<char> = vec!['\\'];
    assert(separator@ =~= seq!['\\']);
    let rest = slice_chars(path, root_end, path.len());
    assert(rest@ =~= path@.skip(root_end as int));
    let parts = split_pieces(rest.as_slice(), separator.as_slice());
    let ghost all = views(parts@);
    let ghost root = path@.take(root_end as int);
    let mut normal = slice_chars(path, 0, root_end);
    let mut i: usize = 0;
    assert(all.take(0) =~= Seq::empty());
    assert(normal@ =~= root + part_path(all.take(0)));
    while i < parts.len()
        invariant
            i <= parts@.len(),
            all == views(parts@),
            normal@ == root + part_path(all.take(i as int)),
        decreases parts@.len() - i,
    {
        let ghost longer = all.take(i + 1);
        assert(longer.drop_last() =~= all.take(i as int));
        assert(longer.last() == parts@[i as int]@);
        if parts[i].len() > 0 {
            let ghost before = normal@;
            let mut part = slice_chars(parts[i].as_slice(), 0, parts[i].len());
            assert(part@ =~= parts@[i as int]@);
            normal.push('\\');
            normal.append(&mut part);
            assert(normal@ =~= before + seq!['\\'] + parts@[i as int]@);
            assert(normal@ =~= root + part_path(longer));
        }
        i += 1;
    }
    assert(all.take(i as int) =~= all);
    normal
}

/// The executable of the application below the directory of its package on Windows.
pub fn windows_executable_path(directory: &str) -> (result: String)
    ensures
        result@ == windows_executable(directory@),
{
    let mut path = chars_of(directory);
    let size: usize = path.len();
    if size >= 4 && path[0] == '\\' && path[1] == '\\' && path[2] == '?' && path[3] == '\\' {
        path = normalize_verbatim(path.as_slice());
        path.push('\\');
    } else {
        let joined_directly = size == 0 || path[size - 1] == '\\' || path[size - 1] == '/' || (size
            == 2 && path[1] == ':' && (('a' <= path[0] && path[0] <= 'z') || ('A' <= path[0]
            && path[0] <= 'Z')));
        if !joined_directly {
            path.push('\\');
        }
    }
    push_text(&mut path, "app\\ChatGPT.exe");
    assert(path@ =~= windows_executable(directory@));
    text_of(path.as_slice())
}

/// Whether an identifier is that of an application in a family of packages.
pub open spec fn belongs_to_family(app_user_model_id: Seq<char>, family_name: Seq<char>) -> bool {
    (family_name + seq!['!']).is_prefix_of(app_user_model_id)
}

/// The first identifier of an application in a family of packages.
pub open spec fn first_in_family(ids: Seq<Seq<char>>, family_name: Seq<char>) -> Option<Seq<char>>
    decreases ids.len(),
{
    if ids.len() == 0 {
        None
    } else if belongs_to_family(ids[0], family_name) {
        Some(ids[0])
    } else {
        first_in_family(ids.drop_first(), family_name)
    }
}

/// A version with dots between its numbers.
pub open spec fn dotted_version(package: PackageDetails) -> Seq<char> {
    joined(
        seq![
            decimal(package.major as nat),
            decimal(package.minor as nat),
            decimal(package.build as nat),
            decimal(package.revision as nat),
        ],
        "."@,
    )
}

fn find_in_family(ids: &Vec<String>, family_name: &str) -> (result: Option<usize>)
    ensures
        match result {
            Some(at) => at < ids@.len() && first_in_family(string_views(ids@), family_name@)
                == Some(ids@[at as int]@),
            None => first_in_family(string_views(ids@), family_name@) is None,
        },
{
    let mut chars = chars_of(family_name);
    chars.push('!');
    assert(chars@ =~= family_name@ + seq!['!']);
    let prefix = text_of(chars.as_slice());
    let ghost all = string_views(ids@);
    let mut i: usize = 0;
    assert(all.skip(0) =~= all);
    while i < ids.len()
        invariant
            i <= ids@.len(),
            all == string_views(ids@),
            prefix@ == family_name@ + seq!['!'],
            first_in_family(all, family_name@) == first_in_family(
                all.skip(i as int),
                family_name@,
            ),
        decreases ids@.len() - i,
    {
        assert(all.skip(i as int)[0] == ids@[i as int]@);
        if text_begins_with(ids[i].as_str(), prefix.as_str()) {
            return Some(i);
        }
        assert(all.skip(i as int).drop_first() =~= all.skip(i + 1));
        i += 1;
    }
    None
}

fn version_text(package: &PackageDetails) -> (result: String)
    ensures
        result@ == dotted_version(*package),
{
    let mut parts: Vec<String> = Vec::new();
    parts.push(text_of(decimal_chars(package.major as u128).as_slice()));
    parts.push(text_of(decimal_chars(package.minor as u128).as_slice()));
    parts.push(text_of(decimal_chars(package.build as u128).as_slice()));
    parts.push(text_of(decimal_chars(package.revision as u128).as_slice()));
    assert(string_views(parts@) =~= seq![
        decimal(package.major as nat),
        decimal(package.minor as nat),
        decimal(package.build as nat),
        decimal(package.revision as nat),
    ]);
    join_texts(parts.as_slice(), ".")
}

/// Whether an application on Windows is what its package says, with the identifier of one of the
/// applications in it.
pub open spec fn is_windows_installation(
    installation: CodexInstallation,
    package: PackageDetails,
    id: Seq<char>,
) -> bool {
    &&& installation.app_name@ == "ChatGPT"@
    &&& installation.path@ == package.path@
    &&& installation.executable@ == windows_executable(package.path@)
    &&& installation.bundle_id@ == package.family_name@
    &&& installation.app_user_model_id is Some
    &&& installation.app_user_model_id->0@ == id
    &&& installation.version@ == dotted_version(package)
}

/// Whether the package of the application comes to a result: an application where its executable
/// is a file and one of its applications can be activated.
pub open spec fn package_comes_to(
    package: PackageDetails,
    result: Result<CodexInstallation, CodexError>,
) -> bool {
    if !package.executable_is_file {
        result is Err && result->Err_0@ == "ChatGPT 可执行文件不存在："@ + windows_executable(
            package.path@,
        )
    } else {
        match first_in_family(
            string_views(package.app_user_model_ids@),
            package.family_name@,
        ) {
            Some(id) => result is Ok && is_windows_installation(result->Ok_0, package, id),
            None => result is Err && result->Err_0@
                == "ChatGPT 安装包没有可激活的应用入口"@,
        }
    }
}

/// The names of some packages.
pub open spec fn package_names(packages: Seq<WindowsPackage>) -> Seq<Seq<char>> {
    packages.map_values(|package: WindowsPackage| package.name@)
}

/// Whether the first package of the application among some packages has been read.
pub open spec fn codex_package_is_read(packages: Seq<WindowsPackage>) -> bool {
    forall|at: int|
        #[trigger] is_first_codex_package(package_names(packages), at)
            ==> packages[at].details is Some
}

/// Whether some packages come to a result: the first one of the application alone decides.
pub open spec fn packages_come_to(
    packages: Seq<WindowsPackage>,
    result: Result<CodexInstallation, CodexError>,
) -> bool {
    if package_names(packages).contains(CODEX_PACKAGE_NAME@) {
        exists|at: int|
            #[trigger] is_first_codex_package(package_names(packages), at) && package_comes_to(
                packages[at].details->0,
                result,
            )
    } else {
        result is Err && result->Err_0@ == "未找到 Microsoft Store 安装的 ChatGPT"@
    }
}

fn inspect_package(package: &PackageDetails) -> (result: Result<CodexInstallation, CodexError>)
    ensures
        package_comes_to(*package, result),
{
    let executable = windows_executable_path(package.path.as_str());
    if let Err(error) = confirm_executable(executable.as_str(), package.executable_is_file) {
        return Err(error);
    }
    match find_in_family(&package.app_user_model_ids, package.family_name.as_str()) {
        Some(at) => Ok(
            CodexInstallation {
                app_name: "ChatGPT".to_owned(),
                path: package.path.clone(),
                executable,
                bundle_id: package.family_name.clone(),
                app_user_model_id: Some(package.app_user_model_ids[at].clone()),
                version: version_text(package),
            },
        ),
        None => Err(CodexError::new("ChatGPT 安装包没有可激活的应用入口")),
    }
}

/// The application on Windows among the packages of the user, in the order in which they are
/// listed. The first package with the name of the application alone decides, even where it is of
/// no use and a later one would be.
pub fn inspect_windows_package(packages: &[WindowsPackage]) -> (result: Result<
    CodexInstallation,
    CodexError,
>)
    requires
        codex_package_is_read(packages@),
    ensures
        packages_come_to(packages@, result),
{
    let ghost all = package_names(packages@);
    let mut names: Vec<String> = Vec::new();
    let mut i: usize = 0;
    while i < packages.len()
        invariant
            i <= packages@.len(),
            names@.len() == i,
            forall|j: int| 0 <= j < i ==> (#[trigger] names@[j])@ == packages@[j].name@,
        decreases packages@.len() - i,
    {
        names.push(packages[i].name.clone());
        i += 1;
    }
    assert(string_views(names@) =~= all);
    match first_codex_package(names.as_slice()) {
        Some(at) => {
            assert(is_first_codex_package(all, at as int));
            assert(all.contains(all[at as int]));
            match &packages[at].details {
                Some(package) => inspect_package(package),
                None => Err(CodexError::new("未找到 Microsoft Store 安装的 ChatGPT")),
            }
        },
        None => Err(CodexError::new("未找到 Microsoft Store 安装的 ChatGPT")),
    }
}

/// What was found at a place where the application may be installed on macOS.
#[derive(Debug)]
pub struct MacosPlace {
    pub app_path: String,
    /// The bytes of the file that describes the application, or the message of the error with which
    /// it was not read.
    pub info: Result<Vec<u8>, String>,
    /// Whether the executable that the file names is a file.
    pub executable_is_file: bool,
}

/// What a place comes to: the application there, or a message on why it is not the one looked for.
pub open spec fn place_outcome(place: MacosPlace, clock: ClockRange) -> Result<
    BundleModel,
    Seq<char>,
> {
    match inspected_file(place.app_path@, place.info, clock) {
        Ok(bundle) => if place.executable_is_file {
            Ok(bundle)
        } else {
            Err("ChatGPT 可执行文件不存在："@ + bundle.executable)
        },
        Err(message) => Err(message),
    }
}

/// The application at a place on macOS.
pub fn inspect_macos_place(place: &MacosPlace, clock: &ClockRange) -> (result: Result<
    CodexInstallation,
    CodexError,
>)
    ensures
        match (result, place_outcome(*place, *clock)) {
            (Ok(installation), Ok(bundle)) => is_macos_installation(
                installation,
                place.app_path@,
                bundle,
            ),
            (Err(error), Err(message)) => error@ == message,
            _ => false,
        },
{
    match inspect_macos_app(place.app_path.as_str(), &place.info, clock) {
        Ok(installation) => match confirm_executable(
            installation.executable.as_str(),
            place.executable_is_file,
        ) {
            Ok(()) => Ok(installation),
            Err(error) => Err(error),
        },
        Err(error) => Err(error),
    }
}

/// What was found on the platform.
#[derive(Debug)]
pub enum PlatformInspection {
    /// The places on macOS where the application may be installed, in the order in which it is
    /// looked for, and the times that the clock holds there.
    MacOs(Vec<MacosPlace>, ClockRange),
    /// The packages on Windows, as far as they were read, or the error with which that failed.
    Windows(Result<Vec<WindowsPackage>, CodexError>),
    /// The application does not exist for the platform.
    Other,
}

/// Whether an index is that of the first place with the application.
pub open spec fn is_first_place(places: Seq<MacosPlace>, clock: ClockRange, at: int) -> bool {
    &&& 0 <= at < places.len()
    &&& place_outcome(places[at], clock) is Ok
    &&& forall|before: int|
        0 <= before < at ==> place_outcome(#[trigger] places[before], clock) is Err
}

/// Whether what was found on the platform comes to a result.
pub open spec fn platform_comes_to(
    inspection: PlatformInspection,
    result: Result<CodexInstallation, CodexError>,
) -> bool {
    match inspection {
        PlatformInspection::MacOs(places, clock) => match result {
            Ok(installation) => exists|at: int|
                #[trigger] is_first_place(places@, clock, at) && is_macos_installation(
                    installation,
                    places@[at].app_path@,
                    place_outcome(places@[at], clock)->Ok_0,
                ),
            Err(error) => {
                &&& forall|at: int|
                    0 <= at < places@.len() ==> place_outcome(#[trigger] places@[at], clock) is Err
                &&& error@ == "未在 /Applications 中找到 ChatGPT"@
            },
        },
        PlatformInspection::Windows(Ok(packages)) => packages_come_to(packages@, result),
        PlatformInspection::Windows(Err(error)) => result == Err::<CodexInstallation, CodexError>(
            error,
        ),
        PlatformInspection::Other => result is Err && result->Err_0@
            == "当前平台暂不支持 ChatGPT 检测"@,
    }
}

/// The installed application, by what was found on the platform.
pub fn detect(inspection: PlatformInspection) -> (result: Result<CodexInstallation, CodexError>)
    requires
        inspection matches PlatformInspection::Windows(Ok(packages)) ==> codex_package_is_read(
            packages@,
        ),
    ensures
        platform_comes_to(inspection, result),
{
    match inspection {
        PlatformInspection::MacOs(places, clock) => {
            let mut i: usize = 0;
            while i < places.len()
                invariant
                    i <= places@.len(),
                    inspection == PlatformInspection::MacOs(places, clock),
                    forall|j: int|
                        0 <= j < i ==> place_outcome(#[trigger] places@[j], clock) is Err,
                decreases places@.len() - i,
            {
                if let Ok(installation) = inspect_macos_place(&places[i], &clock) {
                    assert(is_first_place(places@, clock, i as int));
                    return Ok(installation);
                }
                i += 1;
            }
            Err(CodexError::new("未在 /Applications 中找到 ChatGPT"))
        },
        PlatformInspection::Windows(Ok(packages)) => inspect_windows_package(packages.as_slice()),
        PlatformInspection::Windows(Err(error)) => Err(error),
        PlatformInspection::Other => Err(CodexError::new("当前平台暂不支持 ChatGPT 检测")),
    }
}

/// An application that is found on macOS is ChatGPT, with the identifier of its bundle, and its
/// executable, below its own directory, was found to be a file.
pub proof fn found_macos_application_is_chatgpt(
    places: Vec<MacosPlace>,
    clock: ClockRange,
    installation: CodexInstallation,
)
    requires
        platform_comes_to(PlatformInspection::MacOs(places, clock), Ok(installation)),
    ensures
        installation.app_name@ == "ChatGPT"@,
        installation.bundle_id@ == CODEX_BUNDLE_ID@,
        installation.app_user_model_id is None,
        exists|at: int|
            0 <= at < places@.len() && (#[trigger] places@[at]).executable_is_file
                && places@[at].app_path@ == installation.path@ && (inspected_file(
                places@[at].app_path@,
                places@[at].info,
                clock,
            ) matches Ok(bundle) && bundle.executable == installation.executable@),
{
    let at = choose|at: int|
        #[trigger] is_first_place(places@, clock, at) && is_macos_installation(
            installation,
            places@[at].app_path@,
            place_outcome(places@[at], clock)->Ok_0,
        );
    assert(places@[at].executable_is_file);
}

/// An application that is found on Windows is ChatGPT, with the family of its package; what Windows
/// activates belongs to that family; and its executable, `app\ChatGPT.exe` in the directory of the
/// package, was found to be a file.
pub proof fn found_windows_application_is_chatgpt(
    packages: Vec<WindowsPackage>,
    installation: CodexInstallation,
)
    requires
        platform_comes_to(PlatformInspection::Windows(Ok(packages)), Ok(installation)),
        codex_package_is_read(packages@),
    ensures
        installation.app_name@ == "ChatGPT"@,
        installation.app_user_model_id is Some,
        belongs_to_family(installation.app_user_model_id->0@, installation.bundle_id@),
        installation.executable@ == windows_executable(installation.path@),
        "app\\ChatGPT.exe"@.is_suffix_of(installation.executable@),
        exists|at: int|
            #[trigger] is_first_codex_package(package_names(packages@), at)
                && packages@[at].details->0.executable_is_file
                && packages@[at].details->0.family_name@ == installation.bundle_id@
                && packages@[at].details->0.path@ == installation.path@,
{
    let at = choose|at: int|
        #[trigger] is_first_codex_package(package_names(packages@), at) && package_comes_to(
            packages@[at].details->0,
            Ok(installation),
        );
    let package = packages@[at].details->0;
    lemma_first_in_family(string_views(package.app_user_model_ids@), package.family_name@);
    let name = "app\\ChatGPT.exe"@;
    let executable = installation.executable@;
    assert(name =~= executable.skip(executable.len() - name.len()));
}

proof fn lemma_first_in_family(ids: Seq<Seq<char>>, family_name: Seq<char>)
    ensures
        first_in_family(ids, family_name) matches Some(id) ==> belongs_to_family(id, family_name),
    decreases ids.len(),
{
    if ids.len() > 0 {
        lemma_first_in_family(ids.drop_first(), family_name);
    }
}

/// What is told of a test of the way from the application to a theme and back.
#[derive(Debug)]
pub struct SmokeTestReport {
    pub app_version: String,
    pub browser_version: String,
    pub port: u16,
    pub target_title: String,
    pub target_url: String,
    pub loopback_only: bool,
    pub probe_applied: bool,
    pub probe_removed: bool,
    pub duration_ms: u128,
}

/// What was found on the way from the application to a theme and back.
#[derive(Debug)]
pub struct SmokeTestFindings {
    pub app_version: String,
    pub browser_version: String,
    pub port: u16,
    pub target: DevToolsTarget,
    pub loopback_only: bool,
    pub probe_applied: bool,
    pub probe_removed: bool,
    pub duration_ms: u128,
}

/// What is told of a test: a report only where the probe was both applied and removed. A test comes
/// to this only where the application was found to listen on the loopback address alone.
pub fn run_smoke_test(findings: SmokeTestFindings) -> (result: Result<SmokeTestReport, CodexError>)
    requires
        findings.loopback_only,
    ensures
        match result {
            Ok(report) => {
                &&& findings.probe_applied && findings.probe_removed
                &&& report.app_version == findings.app_version
                &&& report.browser_version == findings.browser_version
                &&& report.port == findings.port
                &&& report.target_title == findings.target.title
                &&& report.target_url == findings.target.url
                &&& report.loopback_only
                &&& report.probe_applied && report.probe_removed
                &&& report.duration_ms == findings.duration_ms
            },
            Err(error) => !(findings.probe_applied && findings.probe_removed) && error@
                == "本地主题通道没有完成应用与撤销闭环"@,
        },
{
    if !findings.probe_applied || !findings.probe_removed {
        return Err(CodexError::new("本地主题通道没有完成应用与撤销闭环"));
    }
    Ok(
        SmokeTestReport {
            app_version: findings.app_version,
            browser_version: findings.browser_version,
            port: findings.port,
            target_title: findings.target.title,
            target_url: findings.target.url,
            loopback_only: findings.loopback_only,
            probe_applied: findings.probe_applied,
            probe_removed: findings.probe_removed,
            duration_ms: findings.duration_ms,
        },
    )
}

/// A path below a directory stands behind it, with one slash between the two; an absolute path is
/// not below any directory and stands for itself.
pub proof fn path_stands_behind_its_directory(directory: &str, path: &str, whole: String)
    requires
        call_ensures(join_path, (directory, path), whole),
    ensures
        path@.len() > 0 && path@[0] == '/' ==> whole@ == path@,
        (path@.len() == 0 || path@[0] != '/') && directory@.len() > 0 && directory@.last() == '/'
            ==> whole@ == directory@ + path@,
        (path@.len() == 0 || path@[0] != '/') && directory@.len() > 0 && directory@.last() != '/'
            ==> whole@ == directory@ + "/"@ + path@,
        (path@.len() == 0 || path@[0] != '/') && directory@.len() == 0 ==> whole@ == path@,
{
    reveal_strlit("/");
    assert("/"@ =~= seq!['/']);
    assert(directory@.len() == 0 ==> directory@ + path@ =~= path@);
}

/// The description of an application lies in its directory, under `Contents/Info.plist`.
pub proof fn description_lies_in_the_application(app_path: &str, path: String)
    requires
        call_ensures(info_path, (app_path,), path),
        app_path@.len() > 0,
        app_path@.last() != '/',
    ensures
        path@ == app_path@ + "/Contents/Info.plist"@,
{
    reveal_strlit("Contents/Info.plist");
    reveal_strlit("/Contents/Info.plist");
    assert(app_path@ + seq!['/'] + "Contents/Info.plist"@ =~= app_path@
        + "/Contents/Info.plist"@);
}

/// Whether the entries of a description hold a text under a key.
pub open spec fn holds_text(
    dictionary: plist::Dictionary,
    key: Seq<char>,
    text: Seq<char>,
) -> bool {
    &&& plist_entries(dictionary).contains_key(key)
    &&& plist_entries(dictionary)[key] == PlistTree::Text(text)
}

/// Whether the entries of a description hold no text under a key.
pub open spec fn holds_no_text(dictionary: plist::Dictionary, key: Seq<char>) -> bool {
    plist_entries(dictionary).contains_key(key) ==> !(plist_entries(dictionary)[key] is Text)
}

/// A text of a description is given out where there is one, and else its key is named.
pub proof fn description_gives_its_texts(
    dictionary: plist::Dictionary,
    key: &str,
    text: Seq<char>,
    given: Result<&str, CodexError>,
)
    requires
        call_ensures(plist_string, (&dictionary, key), given),
    ensures
        holds_text(dictionary, key@, text) ==> given is Ok && given->Ok_0@ == text,
        holds_no_text(dictionary, key@) ==> given is Err && given->Err_0@ == "Info.plist 缺少 "@
            + key@,
{
}

/// An application on macOS whose description names the bundle of ChatGPT, an executable and a
/// version is ChatGPT, with that version, and its executable is the one of that name in
/// `Contents/MacOS`, unless the name is an absolute path.
pub proof fn described_application_is_found(
    app_path: &str,
    dictionary: plist::Dictionary,
    name: Seq<char>,
    version: Seq<char>,
    found: Result<CodexInstallation, CodexError>,
)
    requires
        call_ensures(macos_installation, (app_path, &dictionary), found),
        holds_text(dictionary, "CFBundleIdentifier"@, "com.openai.codex"@),
        holds_text(dictionary, "CFBundleExecutable"@, name),
        holds_text(dictionary, "CFBundleShortVersionString"@, version),
    ensures
        found is Ok,
        found->Ok_0.app_name@ == "ChatGPT"@,
        found->Ok_0.path@ == app_path@,
        found->Ok_0.bundle_id@ == "com.openai.codex"@,
        found->Ok_0.app_user_model_id is None,
        found->Ok_0.version@ == version,
        (name.len() == 0 || name[0] != '/') && app_path@.len() > 0 && app_path@.last() != '/'
            ==> found->Ok_0.executable@ == app_path@ + "/Contents/MacOS/"@ + name,
        (name.len() == 0 || name[0] != '/') && (app_path@.len() == 0 || app_path@.last() == '/')
            ==> found->Ok_0.executable@ == app_path@ + "Contents/MacOS/"@ + name,
        name.len() > 0 && name[0] == '/' ==> found->Ok_0.executable@ == name,
{
    reveal_strlit("Contents/MacOS");
    reveal_strlit("/Contents/MacOS/");
    reveal_strlit("Contents/MacOS/");
    let bundle = bundle_of(app_path@, plist_entries(dictionary))->Ok_0;
    assert(entry_text(plist_entries(dictionary), "CFBundleExecutable"@) == Some(name));
    if name.len() == 0 || name[0] != '/' {
        let directory = path_below(app_path@, "Contents/MacOS"@);
        assert(directory.last() == "Contents/MacOS"@.last());
        assert(found->Ok_0.executable@ == directory + seq!['/'] + name);
        if app_path@.len() == 0 || app_path@.last() == '/' {
            assert(directory + seq!['/'] + name =~= app_path@ + "Contents/MacOS/"@ + name);
        } else {
            assert(directory + seq!['/'] + name =~= app_path@ + "/Contents/MacOS/"@ + name);
        }
    }
}

/// Two descriptions that name different executables of the same application do not come to the same
/// executable.
pub proof fn executables_differ_by_name(
    app_path: &str,
    left: plist::Dictionary,
    right: plist::Dictionary,
    left_name: Seq<char>,
    right_name: Seq<char>,
    left_found: CodexInstallation,
    right_found: CodexInstallation,
)
    requires
        call_ensures(macos_installation, (app_path, &left), Ok(left_found)),
        call_ensures(macos_installation, (app_path, &right), Ok(right_found)),
        holds_text(left, "CFBundleExecutable"@, left_name),
        holds_text(right, "CFBundleExecutable"@, right_name),
        left_name.len() == 0 || left_name[0] != '/',
        right_name.len() == 0 || right_name[0] != '/',
        left_name != right_name,
    ensures
        left_found.executable@ != right_found.executable@,
{
    reveal_strlit("Contents/MacOS");
    let directory = path_below(app_path@, "Contents/MacOS"@);
    assert(directory.last() == "Contents/MacOS"@.last());
    let size = directory.len() as int + 1;
    assert((directory + seq!['/'] + left_name).skip(size) =~= left_name);
    assert((directory + seq!['/'] + right_name).skip(size) =~= right_name);
}

/// A description that lacks its identifier, its executable or its version is refused by the first of
/// these that it lacks, and one of another bundle by its path.
pub proof fn other_description_is_refused(
    app_path: &str,
    dictionary: plist::Dictionary,
    id: Seq<char>,
    name: Seq<char>,
    found: Result<CodexInstallation, CodexError>,
)
    requires
        call_ensures(macos_installation, (app_path, &dictionary), found),
    ensures
        holds_no_text(dictionary, "CFBundleIdentifier"@) ==> found is Err && found->Err_0@
            == "Info.plist 缺少 "@ + "CFBundleIdentifier"@,
        holds_text(dictionary, "CFBundleIdentifier"@, id) && id != "com.openai.codex"@ ==> found
            is Err && found->Err_0@ == app_path@ + " 不是 ChatGPT"@,
        holds_text(dictionary, "CFBundleIdentifier"@, "com.openai.codex"@) && holds_no_text(
            dictionary,
            "CFBundleExecutable"@,
        ) ==> found is Err && found->Err_0@ == "Info.plist 缺少 "@ + "CFBundleExecutable"@,
        holds_text(dictionary, "CFBundleIdentifier"@, "com.openai.codex"@) && holds_text(
            dictionary,
            "CFBundleExecutable"@,
            name,
        ) && holds_no_text(dictionary, "CFBundleShortVersionString"@) ==> found is Err
            && found->Err_0@ == "Info.plist 缺少 "@ + "CFBundleShortVersionString"@,
{
}

/// Whether two results tell of the same application, or of the same failure.
pub open spec fn same_finding(
    left: Result<CodexInstallation, CodexError>,
    right: Result<CodexInstallation, CodexError>,
) -> bool {
    match (left, right) {
        (Ok(one), Ok(other)) => {
            &&& one.app_name@ == other.app_name@
            &&& one.path@ == other.path@
            &&& one.executable@ == other.executable@
            &&& one.bundle_id@ == other.bundle_id@
            &&& one.version@ == other.version@
            &&& match (one.app_user_model_id, other.app_user_model_id) {
                (Some(id), Some(other_id)) => id@ == other_id@,
                (None, None) => true,
                _ => false,
            }
        },
        (Err(one), Err(other)) => one@ == other@,
        _ => false,
    }
}

/// A file that is read as a description comes to what the description comes to.
pub proof fn file_comes_to_its_description(
    app_path: &str,
    bytes: Vec<u8>,
    clock: ClockRange,
    dictionary: plist::Dictionary,
    found: Result<CodexInstallation, CodexError>,
    described: Result<CodexInstallation, CodexError>,
)
    requires
        call_ensures(
            inspect_macos_app,
            (app_path, &Ok::<Vec<u8>, String>(bytes), &clock),
            found,
        ),
        call_ensures(macos_installation, (app_path, &dictionary), described),
        clock.spans_calendar(),
        dates_are_readable(bytes@),
        plist_parsed(bytes@) == Ok::<PlistTree, Seq<char>>(
            PlistTree::Dictionary(plist_entries(dictionary)),
        ),
    ensures
        same_finding(found, described),
{
}

/// A file that was not read, or is read as no property list or as none of a dictionary, is refused
/// under its path, and with the message of the error, if there was one.
pub proof fn unreadable_file_is_refused(
    app_path: &str,
    info: Result<Vec<u8>, String>,
    clock: ClockRange,
    path: String,
    found: Result<CodexInstallation, CodexError>,
)
    requires
        call_ensures(inspect_macos_app, (app_path, &info, &clock), found),
        call_ensures(info_path, (app_path,), path),
    ensures
        info matches Err(message) ==> found is Err && found->Err_0@ == "无法读取 "@ + path@ + "："@
            + message@,
        info matches Ok(bytes) && clock.spans_calendar() && dates_are_readable(bytes@) ==> match
        plist_parsed(info->Ok_0@) {
            Err(message) => found is Err && found->Err_0@ == "无法读取 "@ + path@ + "："@ + message,
            Ok(PlistTree::Dictionary(_)) => true,
            Ok(_) => found is Err && found->Err_0@ == path@ + " 不是有效的 Info.plist"@,
        },
        info matches Ok(bytes) && !(clock.spans_calendar() && dates_are_readable(bytes@)) ==> found
            is Err && found->Err_0@ == "无法读取 "@ + path@ + "："@ + "日期无法读取"@,
{
}

/// A place comes to the application that its file comes to, where the executable of that is a file.
pub proof fn place_comes_to_its_file(
    place: MacosPlace,
    clock: ClockRange,
    app_path: &str,
    found: Result<CodexInstallation, CodexError>,
    of_file: Result<CodexInstallation, CodexError>,
)
    requires
        app_path@ == place.app_path@,
        call_ensures(inspect_macos_place, (&place, &clock), found),
        call_ensures(inspect_macos_app, (app_path, &place.info, &clock), of_file),
    ensures
        of_file is Err || place.executable_is_file ==> same_finding(found, of_file),
        of_file is Ok && !place.executable_is_file ==> found is Err && found->Err_0@
            == "ChatGPT 可执行文件不存在："@ + of_file->Ok_0.executable@,
{
}

/// The application on macOS is that of the first place that comes to one.
pub proof fn first_place_with_the_application_counts(
    places: Vec<MacosPlace>,
    clock: ClockRange,
    at: int,
    findings: Seq<Result<CodexInstallation, CodexError>>,
    found: Result<CodexInstallation, CodexError>,
)
    requires
        call_ensures(detect, (PlatformInspection::MacOs(places, clock),), found),
        findings.len() == places@.len(),
        forall|i: int|
            0 <= i < places@.len() ==> call_ensures(
                inspect_macos_place,
                (&places@[i], &clock),
                #[trigger] findings[i],
            ),
    ensures
        0 <= at < findings.len() && findings[at] is Ok && (forall|before: int|
            0 <= before < at ==> #[trigger] findings[before] is Err) ==> same_finding(
            found,
            findings[at],
        ),
        (forall|i: int| 0 <= i < findings.len() ==> #[trigger] findings[i] is Err) ==> found is Err
            && found->Err_0@ == "未在 /Applications 中找到 ChatGPT"@,
{
    let inspection = PlatformInspection::MacOs(places, clock);
    assert(platform_comes_to(inspection, found));
    assert forall|i: int| 0 <= i < places@.len() implies (place_outcome(
        #[trigger] places@[i],
        clock,
    ) is Ok <==> findings[i] is Ok) by {
        assert(call_ensures(inspect_macos_place, (&places@[i], &clock), findings[i]));
    }
    if found is Ok {
        let first = choose|first: int|
            #[trigger] is_first_place(places@, clock, first) && is_macos_installation(
                found->Ok_0,
                places@[first].app_path@,
                place_outcome(places@[first], clock)->Ok_0,
            );
        assert(findings[first] is Ok);
        if 0 <= at < findings.len() && findings[at] is Ok && (forall|before: int|
            0 <= before < at ==> #[trigger] findings[before] is Err) {
            if at < first {
                assert(place_outcome(places@[at], clock) is Err);
            }
            assert(first == at);
            assert(call_ensures(inspect_macos_place, (&places@[at], &clock), findings[at]));
        }
    } else if 0 <= at < findings.len() && findings[at] is Ok {
        assert(place_outcome(places@[at], clock) is Err);
    }
}

/// Where reading the packages on Windows fails, that failure is told, and on any other platform
/// there is nothing to find.
pub proof fn platform_decides_what_is_found(
    error: CodexError,
    failed: Result<CodexInstallation, CodexError>,
    other: Result<CodexInstallation, CodexError>,
)
    requires
        call_ensures(detect, (PlatformInspection::Windows(Err(error)),), failed),
        call_ensures(detect, (PlatformInspection::Other,), other),
    ensures
        failed == Err::<CodexInstallation, CodexError>(error),
        other is Err,
        other->Err_0@ == "当前平台暂不支持 ChatGPT 检测"@,
{
}

/// The executable of the application lies in the directory of its package, under `app`, behind a
/// backslash, unless the directory is empty, ends in a separator or is a bare drive.
pub proof fn windows_executable_lies_in_its_package(directory: &str, executable: String)
    requires
        call_ensures(windows_executable_path, (directory,), executable),
        !"\\\\?\\"@.is_prefix_of(directory@),
    ensures
        ({
            let bare_drive = directory@.len() == 2 && directory@[1] == ':' && ('a' <= directory@[0]
                <= 'z' || 'A' <= directory@[0] <= 'Z');
            let ended = directory@.len() > 0 && (directory@.last() == '\\' || directory@.last()
                == '/');
            executable@ == if directory@.len() == 0 || bare_drive || ended {
                directory@ + "app\\ChatGPT.exe"@
            } else {
                directory@ + "\\app\\ChatGPT.exe"@
            }
        }),
{
    reveal_strlit("\\\\?\\");
    reveal_strlit("app\\ChatGPT.exe");
    reveal_strlit("\\app\\ChatGPT.exe");
    assert(directory@ + seq!['\\'] + "app\\ChatGPT.exe"@ =~= directory@
        + "\\app\\ChatGPT.exe"@);
    if is_verbatim(directory@) {
        assert("\\\\?\\"@ =~= directory@.subrange(0, 4));
    }
}

/// Whether a result is the application of a package, with an executable and an identifier.
pub open spec fn is_application_of(
    found: Result<CodexInstallation, CodexError>,
    package: PackageDetails,
    executable: Seq<char>,
    id: Seq<char>,
) -> bool {
    &&& found is Ok
    &&& found->Ok_0.app_name@ == "ChatGPT"@
    &&& found->Ok_0.path@ == package.path@
    &&& found->Ok_0.executable@ == executable
    &&& found->Ok_0.bundle_id@ == package.family_name@
    &&& found->Ok_0.app_user_model_id is Some
    &&& found->Ok_0.app_user_model_id->0@ == id
    &&& found->Ok_0.version@ == decimal(package.major as nat) + "."@ + decimal(
        package.minor as nat,
    ) + "."@ + decimal(package.build as nat) + "."@ + decimal(package.revision as nat)
}

proof fn lemma_dotted_version(package: PackageDetails)
    ensures
        dotted_version(package) == decimal(package.major as nat) + "."@ + decimal(
            package.minor as nat,
        ) + "."@ + decimal(package.build as nat) + "."@ + decimal(package.revision as nat),
{
    let major = decimal(package.major as nat);
    let minor = decimal(package.minor as nat);
    let build = decimal(package.build as nat);
    let revision = decimal(package.revision as nat);
    let numbers = seq![major, minor, build, revision];
    reveal_with_fuel(joined, 4);
    assert(numbers.drop_first() =~= seq![minor, build, revision]);
    assert(numbers.drop_first().drop_first() =~= seq![build, revision]);
    assert(numbers.drop_first().drop_first().drop_first() =~= seq![revision]);
    assert(dotted_version(package) =~= major + "."@ + minor + "."@ + build + "."@ + revision);
}

proof fn lemma_is_first_in_family(ids: Seq<Seq<char>>, family_name: Seq<char>, at: int)
    requires
        0 <= at < ids.len(),
        (family_name + seq!['!']).is_prefix_of(ids[at]),
        forall|before: int|
            0 <= before < at ==> !(family_name + seq!['!']).is_prefix_of(#[trigger] ids[before]),
    ensures
        first_in_family(ids, family_name) == Some(ids[at]),
    decreases at,
{
    if at > 0 {
        let rest = ids.drop_first();
        assert(!(family_name + seq!['!']).is_prefix_of(ids[0]));
        assert forall|before: int| 0 <= before < at - 1 implies !(family_name
            + seq!['!']).is_prefix_of(#[trigger] rest[before]) by {
            assert(rest[before] == ids[before + 1]);
        }
        lemma_is_first_in_family(rest, family_name, at - 1);
    }
}

proof fn lemma_none_in_family(ids: Seq<Seq<char>>, family_name: Seq<char>)
    requires
        forall|i: int|
            0 <= i < ids.len() ==> !(family_name + seq!['!']).is_prefix_of(#[trigger] ids[i]),
    ensures
        first_in_family(ids, family_name) is None,
    decreases ids.len(),
{
    if ids.len() > 0 {
        let rest = ids.drop_first();
        assert(!(family_name + seq!['!']).is_prefix_of(ids[0]));
        assert forall|i: int| 0 <= i < rest.len() implies !(family_name
            + seq!['!']).is_prefix_of(#[trigger] rest[i]) by {
            assert(rest[i] == ids[i + 1]);
        }
        lemma_none_in_family(rest, family_name);
    }
}

/// Whether the package at an index is the first one with the name of the application.
pub open spec fn is_named_first(packages: Seq<WindowsPackage>, at: int) -> bool {
    &&& 0 <= at < packages.len()
    &&& packages[at].name@ == "OpenAI.Codex"@
    &&& forall|before: int|
        0 <= before < at ==> (#[trigger] packages[before]).name@ != "OpenAI.Codex"@
}

proof fn lemma_named_first(packages: Seq<WindowsPackage>, at: int, first: int)
    requires
        is_named_first(packages, at),
    ensures
        is_first_codex_package(package_names(packages), at),
        package_names(packages).contains(CODEX_PACKAGE_NAME@),
        is_first_codex_package(package_names(packages), first) ==> first == at,
{
    let names = package_names(packages);
    assert forall|before: int| 0 <= before < at implies #[trigger] names[before]
        != CODEX_PACKAGE_NAME@ by {
        assert(names[before] == packages[before].name@);
    }
    assert(names[at] == CODEX_PACKAGE_NAME@);
    if is_first_codex_package(names, first) && at < first {
        assert(names[at] != CODEX_PACKAGE_NAME@);
    }
    if is_first_codex_package(names, first) && first < at {
        assert(names[first] == CODEX_PACKAGE_NAME@);
    }
}

proof fn lemma_package_outcome(
    packages: Seq<WindowsPackage>,
    at: int,
    found: Result<CodexInstallation, CodexError>,
)
    requires
        is_named_first(packages, at),
        packages_come_to(packages, found),
    ensures
        package_comes_to(packages[at].details->0, found),
{
    lemma_named_first(packages, at, at);
    let first = choose|first: int|
        #[trigger] is_first_codex_package(package_names(packages), first) && package_comes_to(
            packages[first].details->0,
            found,
        );
    lemma_named_first(packages, at, first);
}

/// The application on Windows is that of the first package with its name, where the executable of
/// that is a file and one of the applications in it is of its family: with the directory, the
/// family and the version of the package, and with the first such application.
pub proof fn windows_application_is_that_of_its_package(
    packages: Vec<WindowsPackage>,
    slice: &[WindowsPackage],
    at: int,
    id_at: int,
    path: &str,
    executable: String,
    found: Result<CodexInstallation, CodexError>,
    detected: Result<CodexInstallation, CodexError>,
)
    requires
        slice@ == packages@,
        call_ensures(inspect_windows_package, (slice,), found),
        call_ensures(detect, (PlatformInspection::Windows(Ok(packages)),), detected),
        is_named_first(packages@, at),
        packages@[at].details is Some,
        path@ == packages@[at].details->0.path@,
        call_ensures(windows_executable_path, (path,), executable),
        packages@[at].details->0.executable_is_file,
        ({
            let details = packages@[at].details->0;
            let start = details.family_name@ + "!"@;
            &&& 0 <= id_at < details.app_user_model_ids@.len()
            &&& start.is_prefix_of(details.app_user_model_ids@[id_at]@)
            &&& forall|before: int|
                0 <= before < id_at ==> !start.is_prefix_of(
                    (#[trigger] details.app_user_model_ids@[before])@,
                )
        }),
    ensures
        is_application_of(
            found,
            packages@[at].details->0,
            executable@,
            packages@[at].details->0.app_user_model_ids@[id_at]@,
        ),
        is_application_of(
            detected,
            packages@[at].details->0,
            executable@,
            packages@[at].details->0.app_user_model_ids@[id_at]@,
        ),
{
    reveal_strlit("!");
    assert("!"@ =~= seq!['!']);
    let details = packages@[at].details->0;
    let ids = string_views(details.app_user_model_ids@);
    assert forall|before: int| 0 <= before < id_at implies !(details.family_name@
        + seq!['!']).is_prefix_of(#[trigger] ids[before]) by {
        assert(ids[before] == details.app_user_model_ids@[before]@);
    }
    lemma_is_first_in_family(ids, details.family_name@, id_at);
    lemma_dotted_version(details);
    lemma_package_outcome(packages@, at, found);
    lemma_package_outcome(packages@, at, detected);
}

/// Without a package of the application, or where the executable of the first one is not a file, or
/// where none of the applications in it is of its family, there is no application on Windows.
pub proof fn windows_application_needs_its_package(
    packages: &[WindowsPackage],
    at: int,
    path: &str,
    executable: String,
    found: Result<CodexInstallation, CodexError>,
)
    requires
        call_ensures(inspect_windows_package, (packages,), found),
        call_ensures(windows_executable_path, (path,), executable),
    ensures
        (forall|i: int|
            0 <= i < packages@.len() ==> (#[trigger] packages@[i]).name@ != "OpenAI.Codex"@)
            ==> found is Err && found->Err_0@ == "未找到 Microsoft Store 安装的 ChatGPT"@,
        is_named_first(packages@, at) && packages@[at].details is Some && path@
            == packages@[at].details->0.path@ && !packages@[at].details->0.executable_is_file
            ==> found is Err && found->Err_0@ == "ChatGPT 可执行文件不存在："@ + executable@,
        is_named_first(packages@, at) && packages@[at].details is Some
            && packages@[at].details->0.executable_is_file && (forall|i: int|
            0 <= i < packages@[at].details->0.app_user_model_ids@.len() ==> !(
            packages@[at].details->0.family_name@ + "!"@).is_prefix_of(
                (#[trigger] packages@[at].details->0.app_user_model_ids@[i])@,
            )) ==> found is Err && found->Err_0@ == "ChatGPT 安装包没有可激活的应用入口"@,
{
    reveal_strlit("!");
    assert("!"@ =~= seq!['!']);
    let names = package_names(packages@);
    if names.contains(CODEX_PACKAGE_NAME@) {
        let i = choose|i: int| 0 <= i < names.len() && names[i] == CODEX_PACKAGE_NAME@;
        assert(packages@[i].name@ == "OpenAI.Codex"@);
    }
    if is_named_first(packages@, at) {
        lemma_package_outcome(packages@, at, found);
        let details = packages@[at].details->0;
        let ids = string_views(details.app_user_model_ids@);
        if forall|i: int|
            0 <= i < details.app_user_model_ids@.len() ==> !(details.family_name@
                + "!"@).is_prefix_of((#[trigger] details.app_user_model_ids@[i])@) {
            assert forall|i: int| 0 <= i < ids.len() implies !(details.family_name@
                + seq!['!']).is_prefix_of(#[trigger] ids[i]) by {
                assert(ids[i] == details.app_user_model_ids@[i]@);
            }
            lemma_none_in_family(ids, details.family_name@);
        }
    }
}

/// The first package of the application is the first one whose name is exactly that of it.
pub proof fn package_is_known_by_its_name(
    name: &str,
    is_codex: bool,
    names: &[String],
    first: Option<usize>,
)
    requires
        call_ensures(is_codex_package, (name,), is_codex),
        call_ensures(first_codex_package, (names,), first),
    ensures
        is_codex <==> name@ == "OpenAI.Codex"@,
        first is None <==> forall|i: int|
            0 <= i < names@.len() ==> (#[trigger] names@[i])@ != "OpenAI.Codex"@,
        first matches Some(at) ==> at < names@.len() && names@[at as int]@ == "OpenAI.Codex"@
            && forall|before: int|
            0 <= before < at ==> (#[trigger] names@[before])@ != "OpenAI.Codex"@,
{
    let all = string_views(names@);
    assert forall|i: int| 0 <= i < names@.len() implies (#[trigger] names@[i])@ == all[i] by {}
    match first {
        Some(at) => {
            assert(all[at as int] == names@[at as int]@);
            assert forall|before: int| 0 <= before < at implies (#[trigger] names@[before])@
                != "OpenAI.Codex"@ by {
                assert(all[before] == names@[before]@);
            }
        },
        None => {
            assert forall|i: int| 0 <= i < names@.len() implies (#[trigger] names@[i])@
                != "OpenAI.Codex"@ by {
                assert(all.contains(all[i]));
            }
        },
    }
}

/// An application passes only where its executable is a file, and is else refused by its path.
pub proof fn missing_executable_is_named(
    executable: &str,
    is_file: bool,
    confirmed: Result<(), CodexError>,
)
    requires
        call_ensures(confirm_executable, (executable, is_file), confirmed),
    ensures
        is_file <==> confirmed is Ok,
        !is_file ==> confirmed->Err_0@ == "ChatGPT 可执行文件不存在："@ + executable@,
{
}

/// A test is told of as it was found, and only where the probe was both put on the page and taken
/// off.
pub proof fn smoke_test_is_told_as_found(
    findings: SmokeTestFindings,
    told: Result<SmokeTestReport, CodexError>,
)
    requires
        findings.loopback_only,
        call_ensures(run_smoke_test, (findings,), told),
    ensures
        told is Ok <==> findings.probe_applied && findings.probe_removed,
        told matches Err(error) ==> error@ == "本地主题通道没有完成应用与撤销闭环"@,
        told matches Ok(report) ==> {
            &&& report.app_version == findings.app_version
            &&& report.browser_version == findings.browser_version
            &&& report.port == findings.port
            &&& report.target_title == findings.target.title
            &&& report.target_url == findings.target.url
            &&& report.loopback_only
            &&& report.probe_applied
            &&& report.probe_removed
            &&& report.duration_ms == findings.duration_ms
        },
{
}

/// The version of an installation is that which it was found with.
pub proof fn installation_tells_its_version(installation: CodexInstallation, version: &str)
    requires
        call_ensures(CodexInstallation::version, (&installation,), version),
    ensures
        version@ == installation.version@,
{
}

proof fn lemma_part_end(path: Seq<char>, start: int, end: int)
    requires
        0 <= start <= end <= path.len(),
        forall|i: int| start <= i < end ==> #[trigger] path[i] != '\\',
        end < path.len() ==> path[end] == '\\',
    ensures
        part_end(path, start) == end,
    decreases end - start,
{
    if start < end {
        lemma_part_end(path, start + 1, end);
    }
}

proof fn lemma_part_pieces(name: Seq<char>)
    requires
        !name.contains('\\'),
    ensures
        pieces(name, seq!['\\']) == seq![name],
{
    let mark = seq!['\\'];
    assert forall|at: int| !occurs_at(name, mark, at) by {
        if occurs_at(name, mark, at) {
            assert(name.subrange(at, at + 1)[0] == name[at]);
        }
    }
    lemma_no_occurrence(name, mark);
}

proof fn lemma_part_paths(name: Seq<char>)
    requires
        name.len() > 0,
    ensures
        part_path(seq![Seq::<char>::empty()] + seq![name]) == seq!['\\'] + name,
        part_path(seq![Seq::<char>::empty()] + (seq![name] + seq![Seq::<char>::empty()]))
            == seq!['\\'] + name,
        part_path(seq![Seq::<char>::empty()] + (seq![Seq::<char>::empty()] + seq![name]))
            == seq!['\\'] + name,
{
    let none = Seq::<char>::empty();
    let one = seq![none] + seq![name];
    let ended = seq![none] + (seq![name] + seq![none]);
    let doubled = seq![none] + (seq![none] + seq![name]);
    let two = seq![none] + seq![none];
    assert(seq![none].drop_last() =~= Seq::empty());
    assert(part_path(Seq::<Seq<char>>::empty()) =~= none);
    assert(part_path(seq![none]) =~= none);
    assert(one.drop_last() =~= seq![none]);
    assert(part_path(one) =~= seq!['\\'] + name);
    assert(ended.drop_last() =~= one);
    assert(two.drop_last() =~= seq![none]);
    assert(part_path(two) =~= none);
    assert(doubled.drop_last() =~= two);
    assert(part_path(doubled) =~= seq!['\\'] + name);
}

#[verifier::spinoff_prover]
#[verifier::rlimit(60)]
proof fn lemma_one_part(name: Seq<char>)
    requires
        name.len() > 0,
        !name.contains('\\'),
    ensures
        part_path(pieces(seq!['\\'] + name, seq!['\\'])) == seq!['\\'] + name,
        part_path(pieces(seq!['\\'] + name + seq!['\\'], seq!['\\'])) == seq!['\\'] + name,
        part_path(pieces(seq!['\\'] + (seq!['\\'] + name), seq!['\\'])) == seq!['\\'] + name,
{
    let mark = seq!['\\'];
    let none = Seq::<char>::empty();
    lemma_part_paths(name);
    assert(pieces(mark + name, mark) == seq![none] + seq![name]) by {
        lemma_part_pieces(name);
        lemma_pieces_step(none, mark, name);
        assert(none + mark + name =~= mark + name);
    }
    assert(pieces(name + mark, mark) == seq![name] + seq![none]) by {
        lemma_part_pieces(none);
        lemma_pieces_step(name, mark, none);
        assert(name + mark + none =~= name + mark);
    }
    assert(pieces(mark + name + mark, mark) == seq![none] + (seq![name] + seq![none])) by {
        lemma_pieces_step(none, mark, name + mark);
        assert(none + mark + (name + mark) =~= mark + name + mark);
    }
    assert(pieces(mark + (mark + name), mark) == seq![none] + (seq![none] + seq![name])) by {
        lemma_pieces_step(none, mark, mark + name);
        assert(none + mark + (mark + name) =~= mark + (mark + name));
    }
}

proof fn lemma_drive_root(drive: Seq<char>, rest: Seq<char>)
    requires
        !drive.contains('\\'),
        !(drive.len() >= 3 && drive[0] == 'U' && drive[1] == 'N' && drive[2] == 'C'),
        rest.len() > 0,
        rest[0] == '\\',
    ensures
        verbatim_root_end("\\\\?\\"@ + drive + rest) == 4 + drive.len(),
        is_verbatim("\\\\?\\"@ + drive + rest),
{
    reveal_strlit("\\\\?\\");
    let path = "\\\\?\\"@ + drive + rest;
    assert forall|i: int| 4 <= i < 4 + drive.len() implies #[trigger] path[i] != '\\' by {
        assert(path[i] == drive[i - 4]);
    }
    lemma_part_end(path, 4, 4 + drive.len() as int);
    if drive.len() >= 3 {
        assert(path[4] == drive[0] && path[5] == drive[1] && path[6] == drive[2]);
    } else {
        assert(path[(4 + drive.len()) as int] == '\\');
    }
}

/// Below a verbatim path that is relative to a drive the executable stands behind a backslash, too,
/// and empty parts of the path, in its middle or at its end, are left out.
#[verifier::spinoff_prover]
#[verifier::rlimit(60)]
pub proof fn verbatim_path_loses_its_empty_parts(
    drive: Seq<char>,
    name: Seq<char>,
    plain: &str,
    ended: &str,
    doubled: &str,
    plain_executable: String,
    ended_executable: String,
    doubled_executable: String,
)
    requires
        !drive.contains('\\'),
        !(drive.len() >= 3 && drive[0] == 'U' && drive[1] == 'N' && drive[2] == 'C'),
        name.len() > 0,
        !name.contains('\\'),
        plain@ == "\\\\?\\"@ + drive + (seq!['\\'] + name),
        ended@ == "\\\\?\\"@ + drive + (seq!['\\'] + name + seq!['\\']),
        doubled@ == "\\\\?\\"@ + drive + (seq!['\\'] + (seq!['\\'] + name)),
        call_ensures(windows_executable_path, (plain,), plain_executable),
        call_ensures(windows_executable_path, (ended,), ended_executable),
        call_ensures(windows_executable_path, (doubled,), doubled_executable),
    ensures
        plain_executable@ == plain@ + "\\app\\ChatGPT.exe"@,
        ended_executable@ == plain_executable@,
        doubled_executable@ == plain_executable@,
{
    reveal_strlit("app\\ChatGPT.exe");
    reveal_strlit("\\app\\ChatGPT.exe");
    reveal_strlit("\\\\?\\");
    let root = "\\\\?\\"@ + drive;
    let size = root.len() as int;
    let one = seq!['\\'] + name;
    let two = seq!['\\'] + name + seq!['\\'];
    let three = seq!['\\'] + (seq!['\\'] + name);
    lemma_drive_root(drive, one);
    lemma_drive_root(drive, two);
    lemma_drive_root(drive, three);
    lemma_one_part(name);
    assert(plain@.take(size) =~= root && plain@.skip(size) =~= one);
    assert(ended@.take(size) =~= root && ended@.skip(size) =~= two);
    assert(doubled@.take(size) =~= root && doubled@.skip(size) =~= three);
    assert(plain@ + seq!['\\'] + "app\\ChatGPT.exe"@ =~= plain@ + "\\app\\ChatGPT.exe"@);
}

/// A verbatim path that is relative to what a server shares keeps both, and its executable stands
/// behind the part below them.
#[verifier::spinoff_prover]
#[verifier::rlimit(60)]
pub proof fn verbatim_share_keeps_its_server(
    server: Seq<char>,
    share: Seq<char>,
    name: Seq<char>,
    directory: &str,
    executable: String,
)
    requires
        !server.contains('\\'),
        share.len() > 0,
        !share.contains('\\'),
        name.len() > 0,
        !name.contains('\\'),
        directory@ == "\\\\?\\UNC\\"@ + server + seq!['\\'] + share + (seq!['\\'] + name
            + seq!['\\']),
        call_ensures(windows_executable_path, (directory,), executable),
    ensures
        executable@ == "\\\\?\\UNC\\"@ + server + seq!['\\'] + share + (seq!['\\'] + name)
            + "\\app\\ChatGPT.exe"@,
{
    reveal_strlit("\\\\?\\UNC\\");
    reveal_strlit("app\\ChatGPT.exe");
    reveal_strlit("\\app\\ChatGPT.exe");
    let path = directory@;
    let root = "\\\\?\\UNC\\"@ + server + seq!['\\'] + share;
    let server_end = 8 + server.len() as int;
    let size = root.len() as int;
    assert forall|i: int| 8 <= i < server_end implies #[trigger] path[i] != '\\' by {
        assert(path[i] == server[i - 8]);
    }
    lemma_part_end(path, 8, server_end);
    assert forall|i: int| server_end + 1 <= i < size implies #[trigger] path[i] != '\\' by {
        assert(path[i] == share[i - server_end - 1]);
    }
    lemma_part_end(path, server_end + 1, size);
    assert(verbatim_root_end(path) == size);
    lemma_one_part(name);
    assert(path.take(size) =~= root);
    assert(path.skip(size) =~= seq!['\\'] + name + seq!['\\']);
    assert(root + (seq!['\\'] + name) + seq!['\\'] + "app\\ChatGPT.exe"@ =~= root + (seq!['\\']
        + name) + "\\app\\ChatGPT.exe"@);
}

} // verus!
