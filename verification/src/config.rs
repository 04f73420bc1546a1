//! The launcher's settings: defaults, validation, and where dsh keeps its files.

use std::path::PathBuf;
use vstd::prelude::*;

use crate::paths;
use crate::paths::Location;
use crate::text;
use crate::text::Class;

verus! {

/// How dsh is run.
#[derive(Clone, Copy, Debug, PartialEq, Eq, Structural)]
pub enum LaunchMode {
    /// The installed command.
    Command,
    /// The package, through npx.
    Npx,
}

/// What closing the main window does.
#[derive(Clone, Copy, Debug, PartialEq, Eq, Structural)]
pub enum CloseBehavior {
    /// The launcher stays in the tray.
    Tray,
    /// The launcher ends.
    Exit,
}

impl Default for CloseBehavior {
    fn default() -> (r: Self)
        ensures
            r == CloseBehavior::Tray,
    {
        CloseBehavior::Tray
    }
}

/// The settings that the user edits.
#[derive(Clone, Debug)]
pub struct LauncherConfig {
    pub launch_mode: LaunchMode,
    pub executable: String,
    pub npx_package: String,
    pub working_directory: String,
    pub dsh_home: String,
    pub port: u16,
    pub trusted_hosts: Vec<String>,
    pub auto_start: bool,
    pub open_on_ready: bool,
    pub close_behavior: CloseBehavior,
    pub stop_dsh_on_exit: bool,
    pub download_directory: String,
    pub download_ask: bool,
    pub download_choose_location: bool,
    pub auto_check_updates: bool,
    pub window_width: u32,
    pub window_height: u32,
}

/// What the first known directory reads as, the current directory where none is known.
pub open spec fn directory_chars(first: Option<PathBuf>, second: Option<PathBuf>) -> Seq<char> {
    match first {
        Some(path) => paths::path_chars(path),
        None => match second {
            Some(path) => paths::path_chars(path),
            None => "."@,
        },
    }
}

/// Picks the first directory that is known, or the current directory.
pub fn first_directory(first: Option<PathBuf>, second: Option<PathBuf>) -> (r: PathBuf)
    ensures
        first is Some ==> r == first->0,
        first is None && second is Some ==> r == second->0,
        paths::path_chars(r) == directory_chars(first, second),
{
    match first {
        Some(path) => path,
        None => match second {
            Some(path) => path,
            None => paths::path_from_text("."),
        },
    }
}

/// The text of the first directory that is known, or of the current directory.
pub fn directory_text(first: &Option<PathBuf>, second: &Option<PathBuf>) -> (r: String)
    ensures
        r@ == directory_chars(*first, *second),
{
    match first {
        Some(path) => paths::path_text(path),
        None => match second {
            Some(path) => paths::path_text(path),
            None => ".".to_string(),
        },
    }
}

impl LauncherConfig {
    /// The settings of a launcher that has not been configured, but for the two
    /// directories.
    pub open spec fn is_default(self) -> bool {
        &&& self.launch_mode == LaunchMode::Command
        &&& self.executable@ == "dsh"@
        &&& self.npx_package@ == "@deepseek-ai/dsh"@
        &&& self.dsh_home@ == Seq::<char>::empty()
        &&& self.port == 3080
        &&& self.trusted_hosts@.len() == 0
        &&& self.auto_start
        &&& self.open_on_ready
        &&& self.close_behavior == CloseBehavior::Tray
        &&& self.stop_dsh_on_exit
        &&& !self.download_ask
        &&& !self.download_choose_location
        &&& self.auto_check_updates
        &&& self.window_width == 880
        &&& self.window_height == 760
    }

    /// The default settings for the two directories that the system names: work
    /// starts in the home directory, downloads go to the download directory or
    /// else to the home directory.
    pub fn for_directories(home: Option<PathBuf>, download: Option<PathBuf>) -> (r: Self)
        ensures
            r.is_default(),
            r.working_directory@ == directory_chars(home, None),
            r.download_directory@ == directory_chars(download, home),
    {
        let working_directory: String = directory_text(&home, &None);
        let download_directory: String = directory_text(&download, &home);
        LauncherConfig {
            launch_mode: LaunchMode::Command,
            executable: "dsh".to_string(),
            npx_package: "@deepseek-ai/dsh".to_string(),
            working_directory,
            dsh_home: String::new(),
            port: 3080,
            trusted_hosts: Vec::new(),
            auto_start: true,
            open_on_ready: true,
            close_behavior: CloseBehavior::Tray,
            stop_dsh_on_exit: true,
            download_directory,
            download_ask: false,
            download_choose_location: false,
            auto_check_updates: true,
            window_width: 880,
            window_height: 760,
        }
    }
}

/// A package specifier that cannot carry shell syntax.
pub open spec fn safe_package_spec(value: Seq<char>) -> bool {
    &&& value.len() > 0
    &&& forall|i: int|
        0 <= i < value.len() ==> text::is_alphanumeric(#[trigger] value[i]) || "@/._-"@.contains(value[i])
}

/// A host, with or without a port, that cannot carry shell syntax.
pub open spec fn safe_authority(value: Seq<char>) -> bool {
    &&& value.len() > 0
    &&& forall|i: int|
        0 <= i < value.len() ==> text::is_alphanumeric(#[trigger] value[i]) || ".-_:[]"@.contains(value[i])
}

/// Tells whether every character is an ASCII letter or digit or one of `others`.
pub fn only_plain_chars(value: &str, others: &str) -> (r: bool)
    ensures
        r == (forall|i: int|
            0 <= i < value@.len() ==> text::is_alphanumeric(#[trigger] value@[i]) || others@.contains(
                value@[i],
            )),
{
    let chars: Vec<char> = text::chars_of(value);
    let mut at: usize = 0;
    while at < chars.len()
        invariant
            at <= chars.len(),
            chars@ == value@,
            forall|i: int|
                0 <= i < at ==> text::is_alphanumeric(#[trigger] value@[i]) || others@.contains(value@[i]),
        decreases chars.len() - at,
    {
        let ch: char = chars[at];
        assert(ch == value@[at as int]);
        let plain: bool = ('0' <= ch && ch <= '9') || ('a' <= ch && ch <= 'z') || ('A' <= ch && ch
            <= 'Z');
        if !plain && !text::contains_char(others, ch) {
            return false;
        }
        at += 1;
    }
    true
}

/// Accepts package specifiers such as `@deepseek-ai/dsh@latest`.
pub fn is_safe_package_spec(value: &str) -> (r: bool)
    ensures
        r == safe_package_spec(value@),
{
    !value.is_empty() && only_plain_chars(value, "@/._-")
}

/// Accepts authorities such as `localhost:3080` and `[::1]:3080`.
pub fn is_safe_authority(value: &str) -> (r: bool)
    ensures
        r == safe_authority(value@),
{
    !value.is_empty() && only_plain_chars(value, ".-_:[]")
}

/// Every trusted host is a safe authority.
pub open spec fn safe_hosts(hosts: Seq<Seq<char>>) -> bool {
    forall|i: int| 0 <= i < hosts.len() ==> safe_authority(#[trigger] hosts[i])
}

/// What is wrong with the settings: the first complaint, in the order in which
/// the settings are looked at.
pub open spec fn config_complaint(
    config: LauncherConfig,
    workspace_exists: bool,
    download_absolute: bool,
) -> Option<Seq<char>> {
    if config.port < 1024 {
        Some("端口必须在 1024 到 65535 之间"@)
    } else if !workspace_exists {
        Some("工作目录不存在："@ + config.working_directory@)
    } else if config.launch_mode == LaunchMode::Command && text::stripped(config.executable@).len() == 0 {
        Some("dsh 命令不能为空"@)
    } else if config.launch_mode == LaunchMode::Npx && !safe_package_spec(config.npx_package@) {
        Some("npm 包名包含不支持的字符"@)
    } else if text::stripped(config.download_directory@).len() == 0 || !download_absolute {
        Some("下载目录必须是绝对路径"@)
    } else if !safe_hosts(config.trusted_hosts.deep_view()) {
        Some("可信主机只能包含字母、数字、点、短横线、方括号、冒号和下划线"@)
    } else {
        None
    }
}

/// A check passed, or the complaint that it ended with.
pub open spec fn says(r: Result<(), String>, complaint: Option<Seq<char>>) -> bool {
    match r {
        Ok(_) => complaint is None,
        Err(message) => complaint == Some(message@),
    }
}

/// Checks the settings. `workspace_exists` tells whether the working directory is a
/// directory, `download_absolute` whether the trimmed download directory is absolute.
pub fn check_config(
    config: &LauncherConfig,
    workspace_exists: bool,
    download_absolute: bool,
) -> (r: Result<(), String>)
    ensures
        says(r, config_complaint(*config, workspace_exists, download_absolute)),
{
    if config.port < 1024 {
        return Err("端口必须在 1024 到 65535 之间".to_string());
    }
    if !workspace_exists {
        let mut message: String = "工作目录不存在：".to_string();
        message.append(config.working_directory.as_str());
        return Err(message);
    }
    if config.launch_mode == LaunchMode::Command && text::is_blank(config.executable.as_str()) {
        return Err("dsh 命令不能为空".to_string());
    }
    if config.launch_mode == LaunchMode::Npx && !is_safe_package_spec(config.npx_package.as_str()) {
        return Err("npm 包名包含不支持的字符".to_string());
    }
    if text::is_blank(config.download_directory.as_str()) || !download_absolute {
        return Err("下载目录必须是绝对路径".to_string());
    }
    let ghost hosts = config.trusted_hosts.deep_view();
    let mut at: usize = 0;
    while at < config.trusted_hosts.len()
        invariant
            at <= config.trusted_hosts.len(),
            hosts == config.trusted_hosts.deep_view(),
            forall|i: int| 0 <= i < at ==> safe_authority(#[trigger] hosts[i]),
            config_complaint(*config, workspace_exists, download_absolute) == (if safe_hosts(hosts) {
                None
            } else {
                Some("可信主机只能包含字母、数字、点、短横线、方括号、冒号和下划线"@)
            }),
        decreases config.trusted_hosts.len() - at,
    {
        assert(hosts[at as int] == config.trusted_hosts@[at as int]@);
        if !is_safe_authority(config.trusted_hosts[at].as_str()) {
            return Err(
                "可信主机只能包含字母、数字、点、短横线、方括号、冒号和下划线".to_string(),
            );
        }
        at += 1;
    }
    Ok(())
}

/// Checks the settings; only whether the working directory is there is for the
/// caller to find out.
pub fn validate_config(config: &LauncherConfig, workspace_exists: bool) -> (r: Result<(), String>)
    ensures
        exists|download_absolute: bool|
            says(r, #[trigger] config_complaint(*config, workspace_exists, download_absolute)) && (
            download_absolute ==> paths::rooted(text::stripped(config.download_directory@))),
{
    let download: String = text::trim(config.download_directory.as_str());
    let download_absolute: bool = paths::is_absolute(download.as_str());
    check_config(config, workspace_exists, download_absolute)
}

/// The settings are those of the file, or the default ones where there is no file yet.
pub open spec fn is_reading(
    r: Result<LauncherConfig, String>,
    parsed: Option<Result<LauncherConfig, String>>,
    home: Option<PathBuf>,
    download: Option<PathBuf>,
) -> bool {
    match parsed {
        None => {
            &&& r is Ok
            &&& r->Ok_0.is_default()
            &&& r->Ok_0.working_directory@ == directory_chars(home, None)
            &&& r->Ok_0.download_directory@ == directory_chars(download, home)
        },
        Some(Ok(config)) => r is Ok && r->Ok_0 == config,
        Some(Err(error)) => r is Err && r->Err_0@ == "配置文件格式无效："@ + error@,
    }
}

/// The settings, given what reading their file came to: `None` where there is no file yet,
/// and the default settings for the two directories stand in.
pub fn read_config(
    parsed: Option<Result<LauncherConfig, String>>,
    home: Option<PathBuf>,
    download: Option<PathBuf>,
) -> (r: Result<LauncherConfig, String>)
    ensures
        is_reading(r, parsed, home, download),
{
    match parsed {
        None => Ok(LauncherConfig::for_directories(home, download)),
        Some(Ok(config)) => Ok(config),
        Some(Err(error)) => {
            let mut message: String = "配置文件格式无效：".to_string();
            message.append(error.as_str());
            Err(message)
        },
    }
}

/// Where dsh keeps its files: the configured directory, or `.dsh` in the home directory.
pub open spec fn is_dsh_home(place: Location, config: LauncherConfig, home: Option<PathBuf>) -> bool {
    if text::stripped(config.dsh_home@).len() > 0 {
        &&& paths::path_chars(place.root) == text::stripped(config.dsh_home@)
        &&& place.parts.deep_view() == Seq::<Seq<char>>::empty()
    } else {
        &&& paths::path_chars(place.root) == directory_chars(home, None)
        &&& home is Some ==> place.root == home->0
        &&& place.parts.deep_view() == seq![".dsh"@]
    }
}

/// Finds where dsh keeps its files, given the home directory.
pub fn dsh_home(config: &LauncherConfig, home: Option<PathBuf>) -> (r: Location)
    ensures
        is_dsh_home(r, *config, home),
{
    let configured: String = text::trim(config.dsh_home.as_str());
    if !configured.as_str().is_empty() {
        return Location::at(paths::path_from_text(configured.as_str()));
    }
    let r: Location = Location::at(first_directory(home, None)).join(".dsh");
    assert(r.parts.deep_view() == seq![".dsh"@]);
    r
}

/// Finds where dsh keeps its files, with the home directory that the system names now.
pub fn dsh_home_for(config: &LauncherConfig) -> (r: Location)
    ensures
        exists|home: Option<PathBuf>| #[trigger] is_dsh_home(r, *config, home),
{
    let home: Option<PathBuf> = dirs::home_dir();
    dsh_home(config, home)
}

/// The manifest of the web profile in the directory of dsh.
pub fn profile_manifest(home: Location) -> (r: Location)
    ensures
        r.is_below(
            home.root,
            home.parts.deep_view() + seq!["profiles"@, "web"@, "package.json"@],
        ),
{
    let r: Location = home.join("profiles").join("web").join("package.json");
    assert(r.parts.deep_view() =~= home.parts.deep_view() + seq![
        "profiles"@,
        "web"@,
        "package.json"@,
    ]);
    r
}

/// The manifest of the web profile.
pub fn profile_manifest_path(config: &LauncherConfig) -> (r: Location)
    ensures
        exists|home: Option<PathBuf>, place: Location| #[trigger]
            is_dsh_home(place, *config, home) && r.is_below(
                place.root,
                place.parts.deep_view() + seq!["profiles"@, "web"@, "package.json"@],
            ),
{
    let place: Location = dsh_home_for(config);
    profile_manifest(place)
}

/// The manifest of a package that is installed in the web profile.
pub fn package_manifest(home: Location, name: &str) -> (r: Location)
    ensures
        r.is_below(
            home.root,
            home.parts.deep_view() + seq![
                "profiles"@,
                "web"@,
                "node_modules"@,
                name@,
                "package.json"@,
            ],
        ),
{
    let r: Location = home.join("profiles").join("web").join("node_modules").join(name).join(
        "package.json",
    );
    assert(r.parts.deep_view() =~= home.parts.deep_view() + seq![
        "profiles"@,
        "web"@,
        "node_modules"@,
        name@,
        "package.json"@,
    ]);
    r
}

/// A size that a window may be given; sizes on the way to it are not kept.
pub open spec fn window_size(width: u32, height: u32) -> bool {
    620 <= width <= 4096 && 560 <= height <= 4096
}

/// Tells whether a window may be given the size.
pub fn is_window_size(width: u32, height: u32) -> (r: bool)
    ensures
        r == window_size(width, height),
{
    620 <= width && width <= 4096 && 560 <= height && height <= 4096
}

/// The settings once a window has got the size.
pub open spec fn resized(config: LauncherConfig, width: u32, height: u32) -> LauncherConfig {
    if window_size(width, height) {
        LauncherConfig { window_width: width, window_height: height, ..config }
    } else {
        config
    }
}

/// Keeps the size of the window in the settings; `false` where it is no size to be kept,
/// and the settings stay as they are.
pub fn save_window_size(config: &mut LauncherConfig, width: u32, height: u32) -> (r: bool)
    ensures
        r == window_size(width, height),
        *final(config) == resized(*old(config), width, height),
{
    if !is_window_size(width, height) {
        return false;
    }
    config.window_width = width;
    config.window_height = height;
    true
}

/// Settings that pass the check can go into a command: the port is not a reserved one, the
/// package of npx and the trusted hosts carry no shell syntax, and there is a command.
pub proof fn law_checked_settings_are_safe(
    config: LauncherConfig,
    workspace_exists: bool,
    download_absolute: bool,
)
    requires
        config_complaint(config, workspace_exists, download_absolute) is None,
    ensures
        config.port >= 1024,
        workspace_exists,
        download_absolute,
        config.launch_mode == LaunchMode::Npx ==> safe_package_spec(config.npx_package@),
        config.launch_mode == LaunchMode::Command ==> text::stripped(config.executable@).len() > 0,
        safe_hosts(config.trusted_hosts.deep_view()),
{
}

/// The default settings pass the check, wherever the working directory exists and the
/// download directory is absolute.
pub proof fn law_default_settings_pass(config: LauncherConfig)
    requires
        config.is_default(),
        text::stripped(config.download_directory@).len() > 0,
    ensures
        config_complaint(config, true, true) is None,
{
    reveal_strlit("dsh");
    let name = "dsh"@;
    assert(!text::is_white(name[0]) && !text::is_white(name[2]));
    assert(text::trimmed_start(name, Class::White) == name);
    assert(text::stripped(name) == name);
    assert(config.trusted_hosts.deep_view().len() == 0);
}

/// A safe text holds no white space, no quotes and no shell operators.
pub proof fn law_safe_texts_hold_no_shell_syntax(value: Seq<char>, at: int)
    requires
        safe_authority(value) || safe_package_spec(value),
        0 <= at < value.len(),
    ensures
        !text::is_white(value[at]),
        !" ;&|<>$`\"'\\(){}*?!#~\n"@.contains(value[at]),
{
    reveal_strlit("@/._-");
    reveal_strlit(".-_:[]");
    reveal_strlit(" ;&|<>$`\"'\\(){}*?!#~\n");
    let ch = value[at];
    assert(text::is_alphanumeric(ch) || "@/._-"@.contains(ch) || ".-_:[]"@.contains(ch));
}

/// A package specifier is safe exactly where it is made of ASCII letters, digits and the signs of
/// package names, and a host where it is made of those of hosts and ports.
pub proof fn law_which_texts_are_safe(value: Seq<char>)
    ensures
        safe_package_spec(value) <==> value.len() > 0 && forall|i: int|
            0 <= i < value.len() ==> ('a' <= #[trigger] value[i] <= 'z') || ('A' <= value[i] <= 'Z') || (
            '0' <= value[i] <= '9') || value[i] == '@' || value[i] == '/' || value[i] == '.'
                || value[i] == '_' || value[i] == '-',
        safe_authority(value) <==> value.len() > 0 && forall|i: int|
            0 <= i < value.len() ==> ('a' <= #[trigger] value[i] <= 'z') || ('A' <= value[i] <= 'Z') || (
            '0' <= value[i] <= '9') || value[i] == '.' || value[i] == '-' || value[i] == '_'
                || value[i] == ':' || value[i] == '[' || value[i] == ']',
{
    reveal_strlit("@/._-");
    reveal_strlit(".-_:[]");
    let package = "@/._-"@;
    let host = ".-_:[]"@;
    assert(package[0] == '@' && package[1] == '/' && package[2] == '.' && package[3] == '_'
        && package[4] == '-');
    assert(host[0] == '.' && host[1] == '-' && host[2] == '_' && host[3] == ':' && host[4] == '['
        && host[5] == ']');
    assert forall|i: int| 0 <= i < value.len() implies (package.contains(#[trigger] value[i]) <==> value[i]
        == '@' || value[i] == '/' || value[i] == '.' || value[i] == '_' || value[i] == '-') && (
    host.contains(value[i]) <==> value[i] == '.' || value[i] == '-' || value[i] == '_' || value[i] == ':'
        || value[i] == '[' || value[i] == ']') by {}
}

/// Settings pass exactly where the port is not a reserved one, the working directory is there,
/// there is a command or a safe package, the download directory is absolute, and every trusted
/// host is safe.
pub proof fn law_which_settings_pass(
    config: LauncherConfig,
    workspace_exists: bool,
    download_absolute: bool,
)
    ensures
        config_complaint(config, workspace_exists, download_absolute) is None <==> {
            &&& config.port >= 1024
            &&& workspace_exists
            &&& config.launch_mode == LaunchMode::Command ==> exists|i: int|
                0 <= i < config.executable@.len() && !text::is_white(#[trigger] config.executable@[i])
            &&& config.launch_mode == LaunchMode::Npx ==> safe_package_spec(config.npx_package@)
            &&& exists|i: int|
                0 <= i < config.download_directory@.len() && !text::is_white(
                    #[trigger] config.download_directory@[i],
                )
            &&& download_absolute
            &&& forall|i: int|
                0 <= i < config.trusted_hosts@.len() ==> safe_authority(
                    (#[trigger] config.trusted_hosts@[i])@,
                )
        },
{
    text::law_blank_texts_hold_white_space_only(config.executable@);
    text::law_blank_texts_hold_white_space_only(config.download_directory@);
    let hosts = config.trusted_hosts.deep_view();
    assert forall|i: int| 0 <= i < hosts.len() implies hosts[i] == (
    #[trigger] config.trusted_hosts@[i])@ by {}
    if safe_hosts(hosts) {
        assert forall|i: int| 0 <= i < config.trusted_hosts@.len() implies safe_authority(
            (#[trigger] config.trusted_hosts@[i])@,
        ) by {
            assert(safe_authority(hosts[i]));
        }
    }
    if forall|i: int|
        0 <= i < config.trusted_hosts@.len() ==> safe_authority((#[trigger] config.trusted_hosts@[i])@) {
        assert forall|i: int| 0 <= i < hosts.len() implies safe_authority(#[trigger] hosts[i]) by {
            assert(hosts[i] == config.trusted_hosts@[i]@);
        }
    }
}

/// Of several things that are wrong the first is told: the port, the working directory, the
/// command or package, the download directory, the trusted hosts.
pub proof fn law_the_first_complaint_is_told(
    config: LauncherConfig,
    workspace_exists: bool,
    download_absolute: bool,
)
    ensures
        ({
            let complaint = config_complaint(config, workspace_exists, download_absolute);
            let port = config.port >= 1024;
            let program = (config.launch_mode == LaunchMode::Command ==> text::stripped(
                config.executable@,
            ).len() > 0) && (config.launch_mode == LaunchMode::Npx ==> safe_package_spec(
                config.npx_package@,
            ));
            let download = text::stripped(config.download_directory@).len() > 0 && download_absolute;
            &&& !port ==> complaint == Some("端口必须在 1024 到 65535 之间"@)
            &&& port && !workspace_exists ==> complaint == Some(
                "工作目录不存在："@ + config.working_directory@,
            )
            &&& port && workspace_exists && !program && config.launch_mode == LaunchMode::Command
                ==> complaint == Some("dsh 命令不能为空"@)
            &&& port && workspace_exists && !program && config.launch_mode == LaunchMode::Npx
                ==> complaint == Some("npm 包名包含不支持的字符"@)
            &&& port && workspace_exists && program && !download ==> complaint == Some(
                "下载目录必须是绝对路径"@,
            )
            &&& port && workspace_exists && program && download && complaint is Some ==> complaint
                == Some("可信主机只能包含字母、数字、点、短横线、方括号、冒号和下划线"@)
        }),
{
}

/// Of two directories the first counts that is known, and the current one where none is.
pub proof fn law_the_first_known_directory_counts(first: PathBuf, second: Option<PathBuf>)
    ensures
        directory_chars(Some(first), second) == paths::path_chars(first),
        directory_chars(None, Some(first)) == paths::path_chars(first),
        directory_chars(None, None) == seq!['.'],
{
    reveal_strlit(".");
    assert("."@ =~= seq!['.']);
}

/// dsh keeps its files in the directory that the settings name, without white space around it;
/// where they name none, in `.dsh` in the home directory.
pub proof fn law_where_dsh_keeps_its_files(place: Location, config: LauncherConfig, home: PathBuf)
    requires
        is_dsh_home(place, config, Some(home)),
    ensures
        (forall|i: int| 0 <= i < config.dsh_home@.len() ==> text::is_white(#[trigger] config.dsh_home@[i]))
            ==> place.is_below(home, seq![".dsh"@]),
        !(forall|i: int|
            0 <= i < config.dsh_home@.len() ==> text::is_white(#[trigger] config.dsh_home@[i]))
            ==> paths::path_chars(place.root) == text::stripped(config.dsh_home@)
            && place.parts@.len() == 0,
{
    text::law_blank_texts_hold_white_space_only(config.dsh_home@);
    assert(place.parts.deep_view().len() == place.parts@.len());
}

/// The sizes of a window that are kept.
pub proof fn law_which_sizes_are_kept(width: u32, height: u32)
    ensures
        window_size(width, height) <==> !(width < 620 || height < 560 || width > 4096 || height > 4096),
{
}

/// The settings of the file are taken as they are, and a file that cannot be read is not passed
/// over. Only where there is no file do the default settings stand in.
pub proof fn law_what_settings_are_read(
    r: Result<LauncherConfig, String>,
    parsed: Option<Result<LauncherConfig, String>>,
    home: PathBuf,
    download: PathBuf,
)
    requires
        is_reading(r, parsed, Some(home), Some(download)),
    ensures
        r is Err <==> parsed is Some && parsed->0 is Err,
        r is Err ==> r->Err_0@ == "配置文件格式无效："@ + parsed->0->Err_0@,
        parsed is Some && parsed->0 is Ok ==> r->Ok_0 == parsed->0->Ok_0,
        parsed is None ==> r->Ok_0.working_directory@ == paths::path_chars(home)
            && r->Ok_0.download_directory@ == paths::path_chars(download),
        parsed is None ==> r->Ok_0.is_default(),
{
}

/// The default settings: dsh is started with the launcher by its own command on its usual port, its
/// page is shown when it is ready, and it is stopped with the launcher.
pub proof fn law_what_the_default_settings_are(config: LauncherConfig)
    requires
        config.is_default(),
    ensures
        config.launch_mode == LaunchMode::Command && config.executable@ == "dsh"@,
        config.npx_package@ == "@deepseek-ai/dsh"@,
        config.dsh_home@.len() == 0,
        config.port == 3080 && config.trusted_hosts@.len() == 0,
        config.auto_start && config.open_on_ready && config.stop_dsh_on_exit,
        config.close_behavior == CloseBehavior::Tray,
        !config.download_ask && !config.download_choose_location,
        config.auto_check_updates,
        config.window_width == 880 && config.window_height == 760,
        window_size(config.window_width, config.window_height),
{
}

/// A size that a window may have is kept, and nothing else changes; another one changes nothing.
pub proof fn law_only_the_size_is_changed(config: LauncherConfig, width: u32, height: u32)
    ensures
        ({
            let next = resized(config, width, height);
            &&& 620 <= width <= 4096 && 560 <= height <= 4096 ==> next.window_width == width
                && next.window_height == height
            &&& !(620 <= width <= 4096 && 560 <= height <= 4096) ==> next == config
            &&& (LauncherConfig {
                window_width: config.window_width,
                window_height: config.window_height,
                ..next
            }) == config
            &&& resized(next, width, height) == next
        }),
{
}

/// A check says the complaint, and says nothing where there is none.
pub proof fn law_a_complaint_is_said(r: Result<(), String>, complaint: Option<Seq<char>>)
    ensures
        says(r, complaint) <==> (r is Err <==> complaint is Some) && (r is Err ==> r->Err_0@
            == complaint->0),
{
}

} // verus!
