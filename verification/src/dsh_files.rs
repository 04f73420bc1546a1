//! The files of dsh that the user can edit.

use std::path::PathBuf;
use vstd::prelude::*;

use crate::config;
use crate::config::LauncherConfig;
use crate::exec::Platform;
use crate::paths;
use crate::paths::Location;
use crate::text;

verus! {

/// A file may have this many bytes.
pub const MAX_FILE_BYTES: usize = 2_000_000;

/// A file of dsh, with its content.
#[derive(Clone, Debug)]
pub struct ConfigFileInfo {
    pub id: String,
    pub name: String,
    pub path: String,
    pub content: String,
    pub editable: bool,
}

/// The files that there are, in the order in which they are shown: what a file is known by,
/// what it is called, where it stands in the directory of dsh, and the last part of that.
pub open spec fn catalogue() -> Seq<(Seq<char>, Seq<char>, Seq<char>, Seq<char>)> {
    seq![
        (
            "credentials"@,
            "全局凭据 · .credentials.yaml"@,
            ".credentials.yaml"@,
            ".credentials.yaml"@,
        ),
        ("settings"@, "全局设置 · settings.yaml"@, "settings.yaml"@, "settings.yaml"@),
        ("home-patch"@, "全局补丁 · cordis.patch.yml"@, "cordis.patch.yml"@, "cordis.patch.yml"@),
        (
            "web-manifest"@,
            "Web profile · package.json"@,
            "profiles/web/package.json"@,
            "package.json"@,
        ),
        (
            "web-patch"@,
            "Web profile · cordis.patch.yml"@,
            "profiles/web/cordis.patch.yml"@,
            "cordis.patch.yml"@,
        ),
        (
            "web-workspace"@,
            "Web profile · pnpm-workspace.yaml"@,
            "profiles/web/pnpm-workspace.yaml"@,
            "pnpm-workspace.yaml"@,
        ),
    ]
}

/// One of the files.
pub struct ConfigFile {
    pub id: String,
    pub name: String,
    pub place: Location,
    /// The last part of its path.
    pub leaf: String,
}

/// The file stands in the catalogue at `at`, and in the directory of dsh.
pub open spec fn is_entry(file: ConfigFile, home: Location, at: int) -> bool {
    &&& 0 <= at < catalogue().len()
    &&& file.id@ == catalogue()[at].0
    &&& file.name@ == catalogue()[at].1
    &&& file.place.is_below(home.root, home.parts.deep_view().push(catalogue()[at].2))
    &&& file.leaf@ == catalogue()[at].3
}

/// The file at `at` is known by the identifier.
pub open spec fn known_as(id: Seq<char>, at: int) -> bool {
    0 <= at < catalogue().len() && catalogue()[at].0 == id
}

/// Makes one of the files.
fn entry(id: &str, name: &str, relative: &str, leaf: &str, home: Location) -> (r: ConfigFile)
    ensures
        r.id@ == id@,
        r.name@ == name@,
        r.place.is_below(home.root, home.parts.deep_view().push(relative@)),
        r.leaf@ == leaf@,
{
    ConfigFile {
        id: id.to_owned(),
        name: name.to_owned(),
        place: home.join(relative),
        leaf: leaf.to_owned(),
    }
}

/// Finds a file in the directory of dsh by what it is known by.
pub fn file_in(home: Location, id: &str) -> (r: Option<ConfigFile>)
    ensures
        match r {
            Some(file) => exists|at: int| #[trigger] known_as(id@, at) && is_entry(file, home, at),
            None => forall|at: int| !#[trigger] known_as(id@, at),
        },
{
    if text::same_text(id, "credentials") {
        assert(known_as(id@, 0));
        let name: &str = "全局凭据 · .credentials.yaml";
        return Some(entry(id, name, ".credentials.yaml", ".credentials.yaml", home));
    }
    if text::same_text(id, "settings") {
        assert(known_as(id@, 1));
        let name: &str = "全局设置 · settings.yaml";
        return Some(entry(id, name, "settings.yaml", "settings.yaml", home));
    }
    if text::same_text(id, "home-patch") {
        assert(known_as(id@, 2));
        let name: &str = "全局补丁 · cordis.patch.yml";
        return Some(entry(id, name, "cordis.patch.yml", "cordis.patch.yml", home));
    }
    if text::same_text(id, "web-manifest") {
        assert(known_as(id@, 3));
        let name: &str = "Web profile · package.json";
        return Some(entry(id, name, "profiles/web/package.json", "package.json", home));
    }
    if text::same_text(id, "web-patch") {
        assert(known_as(id@, 4));
        let name: &str = "Web profile · cordis.patch.yml";
        return Some(entry(id, name, "profiles/web/cordis.patch.yml", "cordis.patch.yml", home));
    }
    if text::same_text(id, "web-workspace") {
        assert(known_as(id@, 5));
        let name: &str = "Web profile · pnpm-workspace.yaml";
        return Some(
            entry(id, name, "profiles/web/pnpm-workspace.yaml", "pnpm-workspace.yaml", home),
        );
    }
    None
}

/// The file stands in the catalogue at `at`, and in the directory of dsh as the settings
/// and some home directory make it.
pub open spec fn is_entry_for(file: ConfigFile, config: LauncherConfig, at: int) -> bool {
    exists|place: Location, home: Option<PathBuf>| #[trigger]
        config::is_dsh_home(place, config, home) && is_entry(file, place, at)
}

/// What comes back of a search for a file.
pub open spec fn found(r: Option<ConfigFile>, config: LauncherConfig, id: Seq<char>) -> bool {
    match r {
        Some(file) => exists|at: int| #[trigger] known_as(id, at) && is_entry_for(file, config, at),
        None => forall|at: int| !#[trigger] known_as(id, at),
    }
}

/// Finds a file by what it is known by, in the directory of dsh as it is now.
pub fn config_file_path(config: &LauncherConfig, id: &str) -> (r: Option<ConfigFile>)
    ensures
        found(r, *config, id@),
{
    let place: Location = config::dsh_home_for(config);
    let ghost home = choose|home: Option<PathBuf>| #[trigger]
        config::is_dsh_home(place, *config, home);
    let ghost spot = place;
    let r: Option<ConfigFile> = file_in(place, id);
    proof {
        if r is Some {
            let at = choose|at: int| #[trigger] known_as(id@, at) && is_entry(r->0, spot, at);
            assert(config::is_dsh_home(spot, *config, home) && is_entry(r->0, spot, at));
            assert(is_entry_for(r->0, *config, at));
        }
    }
    r
}

/// What the files are known by.
pub open spec fn ids() -> Seq<Seq<char>> {
    seq![
        "credentials"@,
        "settings"@,
        "home-patch"@,
        "web-manifest"@,
        "web-patch"@,
        "web-workspace"@,
    ]
}

/// No two files are known by the same identifier.
proof fn lemma_ids_differ()
    ensures
        forall|i: int, j: int|
            0 <= i < ids().len() && 0 <= j < ids().len() && ids()[i] == ids()[j] ==> i == j,
        forall|i: int| 0 <= i < ids().len() ==> #[trigger] known_as(ids()[i], i),
        forall|i: int, at: int|
            0 <= i < ids().len() && #[trigger] known_as(ids()[i], at) ==> at == i,
{
    reveal_strlit("credentials");
    reveal_strlit("settings");
    reveal_strlit("home-patch");
    reveal_strlit("web-manifest");
    reveal_strlit("web-patch");
    reveal_strlit("web-workspace");
    assert("credentials"@.len() == 11 && "settings"@.len() == 8 && "home-patch"@.len() == 10);
    assert("web-manifest"@.len() == 12 && "web-patch"@.len() == 9 && "web-workspace"@.len() == 13);
    assert forall|i: int, at: int| 0 <= i < ids().len() && #[trigger] known_as(ids()[i], at) implies at
        == i by {
        assert(catalogue()[at].0 == ids()[at]);
    }
}

/// Lists the files, in the order in which they are shown. Their contents are for the caller
/// to read.
pub fn list_config_files(config: &LauncherConfig) -> (r: Vec<ConfigFile>)
    ensures
        r@.len() == catalogue().len(),
        forall|at: int| 0 <= at < r@.len() ==> is_entry_for(#[trigger] r@[at], *config, at),
{
    let mut names: Vec<String> = Vec::new();
    names.push("credentials".to_string());
    names.push("settings".to_string());
    names.push("home-patch".to_string());
    names.push("web-manifest".to_string());
    names.push("web-patch".to_string());
    names.push("web-workspace".to_string());
    assert(names.deep_view() =~= ids());
    proof {
        lemma_ids_differ();
    }
    let mut files: Vec<ConfigFile> = Vec::new();
    let mut next: usize = 0;
    while next < names.len()
        invariant
            next <= names.len(),
            names.deep_view() == ids(),
            files.len() == next,
            forall|i: int| 0 <= i < ids().len() ==> #[trigger] known_as(ids()[i], i),
            forall|i: int, at: int|
                0 <= i < ids().len() && #[trigger] known_as(ids()[i], at) ==> at == i,
            forall|at: int| 0 <= at < next ==> is_entry_for(#[trigger] files@[at], *config, at),
        decreases names.len() - next,
    {
        assert(names.deep_view()[next as int] == names@[next as int]@);
        assert(known_as(ids()[next as int], next as int));
        match config_file_path(config, names[next].as_str()) {
            Some(file) => {
                proof {
                    let at = choose|at: int| #[trigger]
                        known_as(ids()[next as int], at) && is_entry_for(file, *config, at);
                    assert(at == next);
                }
                files.push(file);
            },
            None => {},
        }
        next += 1;
    }
    assert(names.deep_view().len() == names@.len());
    files
}

/// What is shown is what is known of the file.
pub open spec fn is_info(
    info: ConfigFileInfo,
    file: ConfigFile,
    path: String,
    content: Option<String>,
) -> bool {
    &&& info.id == file.id
    &&& info.name == file.name
    &&& info.path == path
    &&& info.content@ == text::text_or(text::optional(content), Seq::empty())
    &&& paths::has_extension(file.leaf@) ==> info.editable
    &&& paths::has_no_extension(file.leaf@) ==> !info.editable
}

/// What is shown of a file. A file that is not there is shown empty, and can be edited
/// where its name has an extension.
pub fn file_info(file: ConfigFile, path: String, content: Option<String>) -> (r: ConfigFileInfo)
    ensures
        is_info(r, file, path, content),
{
    let extension: Option<String> = paths::file_extension(file.leaf.as_str());
    let shown: String = match content {
        Some(value) => value,
        None => String::new(),
    };
    ConfigFileInfo {
        id: file.id,
        name: file.name,
        path,
        content: shown,
        editable: extension.is_some(),
    }
}

/// A name with a dot behind its first character has an extension.
proof fn lemma_dot_begins_extension(name: Seq<char>, dot: int)
    requires
        0 < dot < name.len(),
        name[dot] == '.',
    ensures
        paths::extension_of(name) is Some,
        paths::last_dot(name) >= dot,
    decreases name.len(),
{
    if name.last() != '.' {
        lemma_dot_begins_extension(name.drop_last(), dot);
    }
}

/// Every file in the catalogue can be edited: its last part is a single name with an
/// extension.
pub proof fn law_every_file_is_editable(at: int)
    requires
        0 <= at < catalogue().len(),
    ensures
        paths::single_name(catalogue()[at].3),
        paths::has_extension(catalogue()[at].3),
{
    reveal_strlit(".");
    reveal_strlit("..");
    reveal_strlit(".credentials.yaml");
    reveal_strlit("settings.yaml");
    reveal_strlit("cordis.patch.yml");
    reveal_strlit("package.json");
    reveal_strlit("pnpm-workspace.yaml");
    if at == 0 {
        lemma_dot_begins_extension(".credentials.yaml"@, 12);
    } else if at == 1 {
        lemma_dot_begins_extension("settings.yaml"@, 8);
    } else if at == 3 {
        lemma_dot_begins_extension("package.json"@, 7);
    } else if at == 5 {
        lemma_dot_begins_extension("pnpm-workspace.yaml"@, 14);
    } else {
        lemma_dot_begins_extension("cordis.patch.yml"@, 6);
    }
    paths::lemma_leaf_of_name(catalogue()[at].3);
}

/// Why the content of a file is not saved, if it is not: no such file, or too many bytes.
pub open spec fn save_complaint(id: Seq<char>, bytes: nat) -> Option<Seq<char>> {
    if forall|at: int| !#[trigger] known_as(id, at) {
        Some("未知的 dsh 配置文件"@)
    } else if bytes > MAX_FILE_BYTES {
        Some("配置文件超过 2 MB，未保存"@)
    } else {
        None
    }
}

/// Finds the file that new content goes to.
pub fn save_dsh_config(config: &LauncherConfig, id: &str, content: &str) -> (r: Result<
    ConfigFile,
    String,
>)
    ensures
        match save_complaint(id@, vstd::utf8::encode_utf8(content@).len()) {
            Some(message) => r is Err && r->Err_0@ == message,
            None => r is Ok && found(Some(r->Ok_0), *config, id@),
        },
{
    match config_file_path(config, id) {
        None => Err("未知的 dsh 配置文件".to_string()),
        Some(file) => {
            let bytes: &[u8] = content.as_bytes();
            let ghost at = choose|at: int| #[trigger]
                known_as(id@, at) && is_entry_for(file, *config, at);
            assert(known_as(id@, at));
            if bytes.len() > MAX_FILE_BYTES {
                return Err("配置文件超过 2 MB，未保存".to_string());
            }
            Ok(file)
        },
    }
}

/// What is shown of a file that has just been saved.
pub fn saved_info(file: ConfigFile, path: String, content: String) -> (r: ConfigFileInfo)
    ensures
        r == (ConfigFileInfo { id: file.id, name: file.name, path, content, editable: true }),
{
    ConfigFileInfo { id: file.id, name: file.name, path, content, editable: true }
}

/// What is opened for a file.
pub struct OpenPlan {
    pub file: ConfigFile,
    /// The program that opens it.
    pub program: String,
}

/// The program that opens files.
pub open spec fn file_opener(platform: Platform) -> Seq<char> {
    if platform == Platform::Windows {
        "explorer.exe"@
    } else {
        "xdg-open"@
    }
}

/// Finds the file that is to be opened.
pub fn open_dsh_config(config: &LauncherConfig, id: &str, platform: Platform) -> (r: Result<
    OpenPlan,
    String,
>)
    ensures
        match r {
            Ok(plan) => found(Some(plan.file), *config, id@) && plan.program@ == file_opener(platform),
            Err(message) => (forall|at: int| !#[trigger] known_as(id@, at)) && message@
                == "未知的 dsh 配置文件"@,
        },
{
    match config_file_path(config, id) {
        None => Err("未知的 dsh 配置文件".to_string()),
        Some(file) => {
            let program: String = if platform == Platform::Windows {
                "explorer.exe".to_string()
            } else {
                "xdg-open".to_string()
            };
            Ok(OpenPlan { file, program })
        },
    }
}

/// What is opened: the file where it is there, its directory otherwise, and the current
/// directory where it has none.
#[derive(Clone, Copy, Debug, PartialEq, Eq, Structural)]
pub enum OpenTarget {
    File,
    Directory,
    Current,
}

/// What is opened.
pub open spec fn target_of(exists: bool, has_parent: bool) -> OpenTarget {
    if exists {
        OpenTarget::File
    } else if has_parent {
        OpenTarget::Directory
    } else {
        OpenTarget::Current
    }
}

/// Decides what is opened.
pub fn open_target(exists: bool, has_parent: bool) -> (r: OpenTarget)
    ensures
        r == target_of(exists, has_parent),
{
    if exists {
        OpenTarget::File
    } else if has_parent {
        OpenTarget::Directory
    } else {
        OpenTarget::Current
    }
}

/// Says that a file could not be read.
pub fn read_error(path: &str, error: &str) -> (r: String)
    ensures
        r@ == "无法读取 "@ + path@ + "："@ + error@,
{
    let mut message: String = "无法读取 ".to_string();
    message.append(path);
    message.append("：");
    message.append(error);
    message
}

/// Says that a file could not be written.
pub fn write_error(path: &str, error: &str) -> (r: String)
    ensures
        r@ == "无法写入 "@ + path@ + "："@ + error@,
{
    let mut message: String = "无法写入 ".to_string();
    message.append(path);
    message.append("：");
    message.append(error);
    message
}

/// Says that a directory for settings could not be made.
pub fn directory_error(error: &str) -> (r: String)
    ensures
        r@ == "无法创建配置目录："@ + error@,
{
    let mut message: String = "无法创建配置目录：".to_string();
    message.append(error);
    message
}

/// Every file is called by the last part of its path, which stands below the directory of dsh
/// itself or below its web profile.
pub proof fn law_files_are_called_by_their_paths(at: int)
    requires
        0 <= at < catalogue().len(),
    ensures
        catalogue().len() == 6,
        catalogue()[at].2 == catalogue()[at].3 || catalogue()[at].2 == "profiles/web/"@
            + catalogue()[at].3,
        at < 3 ==> catalogue()[at].2 == catalogue()[at].3,
        exists|front: Seq<char>| catalogue()[at].1 == #[trigger] (front + catalogue()[at].3),
{
    reveal_strlit("profiles/web/");
    reveal_strlit("profiles/web/package.json");
    reveal_strlit("profiles/web/cordis.patch.yml");
    reveal_strlit("profiles/web/pnpm-workspace.yaml");
    reveal_strlit("package.json");
    reveal_strlit("cordis.patch.yml");
    reveal_strlit("pnpm-workspace.yaml");
    reveal_strlit(".credentials.yaml");
    reveal_strlit("settings.yaml");
    reveal_strlit("全局凭据 · .credentials.yaml");
    reveal_strlit("全局设置 · settings.yaml");
    reveal_strlit("全局补丁 · cordis.patch.yml");
    reveal_strlit("Web profile · package.json");
    reveal_strlit("Web profile · cordis.patch.yml");
    reveal_strlit("Web profile · pnpm-workspace.yaml");
    let entry = catalogue()[at];
    let front = entry.1.take(entry.1.len() - entry.3.len());
    assert(entry.1 =~= front + entry.3);
    if at >= 3 {
        assert(entry.2 =~= "profiles/web/"@ + entry.3);
    }
}

/// Each file is found by its own identifier and by no other.
pub proof fn law_each_file_is_found_by_its_identifier(at: int, other: int)
    requires
        0 <= at < catalogue().len(),
    ensures
        known_as(catalogue()[at].0, other) <==> other == at,
{
    lemma_ids_differ();
    assert(catalogue()[at].0 == ids()[at]);
}

/// A file is saved exactly where it is one of the files and has no more than two million bytes.
pub proof fn law_what_is_saved(id: Seq<char>, bytes: nat, at: int)
    ensures
        0 <= at < catalogue().len() ==> (save_complaint(catalogue()[at].0, bytes) is None <==> bytes
            <= 2_000_000),
        0 <= at < catalogue().len() && bytes > 2_000_000 ==> save_complaint(catalogue()[at].0, bytes)
            == Some("配置文件超过 2 MB，未保存"@),
        (forall|i: int| 0 <= i < catalogue().len() ==> (#[trigger] catalogue()[i]).0 != id)
            ==> save_complaint(id, bytes) == Some("未知的 dsh 配置文件"@),
{
    if 0 <= at < catalogue().len() {
        assert(known_as(catalogue()[at].0, at));
    }
    if forall|i: int| 0 <= i < catalogue().len() ==> (#[trigger] catalogue()[i]).0 != id {
        assert forall|i: int| !#[trigger] known_as(id, i) by {
            if known_as(id, i) {
                assert(catalogue()[i].0 != id);
            }
        }
    }
}

/// Files are opened by the explorer on Windows and by the desktop elsewhere.
pub proof fn law_what_opens_files(platform: Platform)
    ensures
        file_opener(Platform::Windows) == "explorer.exe"@,
        platform != Platform::Windows ==> file_opener(platform) == "xdg-open"@,
{
}

/// A file that is there is opened; in place of one that is not, its directory is, or the current
/// one where it has none.
pub proof fn law_what_is_opened(exists: bool, has_parent: bool)
    ensures
        target_of(exists, has_parent) == OpenTarget::File <==> exists,
        target_of(exists, has_parent) == OpenTarget::Directory <==> !exists && has_parent,
        target_of(exists, has_parent) == OpenTarget::Current <==> !exists && !has_parent,
{
}

/// A file is shown under its own name with what it holds, empty where it is not there.
pub proof fn law_a_file_is_shown_as_it_is(
    info: ConfigFileInfo,
    file: ConfigFile,
    path: String,
    content: Option<String>,
)
    requires
        is_info(info, file, path, content),
    ensures
        info.id == file.id && info.name == file.name && info.path == path,
        content is Some ==> info.content@ == content->0@,
        content is None ==> info.content@.len() == 0,
        paths::has_extension(file.leaf@) ==> info.editable,
        paths::has_no_extension(file.leaf@) ==> !info.editable,
{
}

/// Which file an identifier stands for: it is the file that carries the identifier, below the
/// directory of dsh, and the web profile has files of its own.
pub proof fn law_which_file_is_found(file: ConfigFile, config: LauncherConfig, id: Seq<char>)
    requires
        found(Some(file), config, id),
    ensures
        file.id@ == id,
        id == "credentials"@ ==> stands_at(file, config, ".credentials.yaml"@, ".credentials.yaml"@),
        id == "settings"@ ==> stands_at(file, config, "settings.yaml"@, "settings.yaml"@),
        id == "home-patch"@ ==> stands_at(file, config, "cordis.patch.yml"@, "cordis.patch.yml"@),
        id == "web-manifest"@ ==> stands_at(
            file,
            config,
            "profiles/web/package.json"@,
            "package.json"@,
        ),
        id == "web-patch"@ ==> stands_at(
            file,
            config,
            "profiles/web/cordis.patch.yml"@,
            "cordis.patch.yml"@,
        ),
        id == "web-workspace"@ ==> stands_at(
            file,
            config,
            "profiles/web/pnpm-workspace.yaml"@,
            "pnpm-workspace.yaml"@,
        ),
{
    let at = choose|at: int| #[trigger] known_as(id, at) && is_entry_for(file, config, at);
    lemma_ids_differ();
    assert(forall|i: int| 0 <= i < ids().len() ==> #[trigger] ids()[i] == catalogue()[i].0);
    assert(id == ids()[at]);
    assert(known_as(ids()[0], 0) && ids()[0] == "credentials"@);
    assert(known_as(ids()[1], 1) && ids()[1] == "settings"@);
    assert(known_as(ids()[2], 2) && ids()[2] == "home-patch"@);
    assert(known_as(ids()[3], 3) && ids()[3] == "web-manifest"@);
    assert(known_as(ids()[4], 4) && ids()[4] == "web-patch"@);
    assert(known_as(ids()[5], 5) && ids()[5] == "web-workspace"@);
    let (place, home) = choose|place: Location, home: Option<PathBuf>| #[trigger]
        config::is_dsh_home(place, config, home) && is_entry(file, place, at);
    assert(config::is_dsh_home(place, config, home));
}

/// The file stands below the directory of dsh at `relative`, which ends in `leaf`.
pub open spec fn stands_at(
    file: ConfigFile,
    config: LauncherConfig,
    relative: Seq<char>,
    leaf: Seq<char>,
) -> bool {
    &&& file.leaf@ == leaf
    &&& exists|place: Location, home: Option<PathBuf>| #[trigger]
        config::is_dsh_home(place, config, home) && file.place.root == place.root
            && file.place.parts.deep_view() == place.parts.deep_view().push(relative)
}

} // verus!
