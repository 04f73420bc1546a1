//! Versions: of dsh, and of the launcher itself.

use vstd::prelude::*;

use crate::config::{LaunchMode, LauncherConfig};
use crate::exec;
use crate::exec::{CommandSpec, CommandView, Invocation, InvocationView, OperationResult, Platform};
use crate::json;
use crate::service;
use crate::service::{MaintenanceStep, Request};
use crate::state;
use crate::state::RuntimeState;
use crate::text;
use crate::text::Class;
use crate::util;

verus! {

/// The versions of dsh.
#[derive(Clone, Debug)]
pub struct PackageInfo {
    pub current_version: String,
    pub latest_version: String,
    pub source: String,
    pub checked_at: String,
    pub detail: String,
}

/// The newest release of the launcher.
#[derive(Clone, Debug)]
pub struct ReleaseInfo {
    pub current_version: String,
    pub latest_version: String,
    pub tag_name: String,
    pub name: String,
    pub body: String,
    pub html_url: String,
    pub published_at: String,
    pub update_available: bool,
}

/// The version of the launcher.
pub fn get_launcher_version() -> (r: String)
    ensures
        r@ == "0.6.0"@,
{
    "0.6.0".to_string()
}

/// The numbers by which releases are ordered.
pub fn release_version_key(value: &str) -> (r: Vec<u64>)
    ensures
        r@ == util::version_numbers(value@),
{
    util::version_key(value)
}

/// The text begins with a digit.
pub open spec fn begins_with_digit(piece: Seq<char>) -> bool {
    piece.len() > 0 && text::is_digit(piece[0])
}

/// The first piece that is a version once quotes, commas and brackets around it are gone.
pub open spec fn first_version(pieces: Seq<Seq<char>>) -> Seq<char>
    decreases pieces.len(),
{
    if pieces.len() == 0 {
        "未知"@
    } else {
        let bare = text::trimmed(pieces[0], Class::OneOf("\"',[]"));
        if begins_with_digit(bare) {
            bare
        } else {
            first_version(pieces.drop_first())
        }
    }
}

/// Finds the version in what a command printed.
pub fn extract_version(value: &str) -> (r: String)
    ensures
        r@ == first_version(text::split_on(value@, Class::White)),
{
    let pieces: Vec<String> = text::split(value, Class::White);
    let ghost all = text::split_on(value@, Class::White);
    let mut at: usize = 0;
    assert(all.skip(0) =~= all);
    while at < pieces.len()
        invariant
            at <= pieces.len(),
            pieces.deep_view() == all,
            all == text::split_on(value@, Class::White),
            first_version(all.skip(at as int)) == first_version(all),
        decreases pieces.len() - at,
    {
        assert(all.skip(at as int)[0] == pieces@[at as int]@);
        assert(all.skip(at as int).drop_first() =~= all.skip(at + 1));
        let bare: String = text::trim_matches(pieces[at].as_str(), Class::OneOf("\"',[]"));
        let chars: Vec<char> = text::chars_of(bare.as_str());
        if chars.len() > 0 && '0' <= chars[0] && chars[0] <= '9' {
            return bare;
        }
        at += 1;
    }
    assert(all.len() == pieces@.len());
    assert(all.skip(at as int).len() == 0);
    "未知".to_string()
}

/// What is found of a version is a version, or the word for none.
pub proof fn law_an_extracted_version_begins_with_a_digit(value: Seq<char>)
    ensures
        begins_with_digit(first_version(text::split_on(value, Class::White))) || first_version(
            text::split_on(value, Class::White),
        ) == "未知"@,
{
    lemma_first_version(text::split_on(value, Class::White));
}

/// The first version of some pieces is a version, or the word for none.
proof fn lemma_first_version(pieces: Seq<Seq<char>>)
    ensures
        begins_with_digit(first_version(pieces)) || first_version(pieces) == "未知"@,
    decreases pieces.len(),
{
    if pieces.len() > 0 {
        lemma_first_version(pieces.drop_first());
    }
}

/// What is read of the description of a release.
pub struct ReleaseFields {
    pub tag_name: Option<String>,
    pub name: Option<String>,
    pub body: Option<String>,
    pub html_url: Option<String>,
    pub published_at: Option<String>,
}

/// The content of `ReleaseFields`.
#[verifier::ext_equal]
pub struct ReleaseFieldsView {
    pub tag_name: Option<Seq<char>>,
    pub name: Option<Seq<char>>,
    pub body: Option<Seq<char>>,
    pub html_url: Option<Seq<char>>,
    pub published_at: Option<Seq<char>>,
}

impl View for ReleaseFields {
    type V = ReleaseFieldsView;

    open spec fn view(&self) -> ReleaseFieldsView {
        ReleaseFieldsView {
            tag_name: text::optional(self.tag_name),
            name: text::optional(self.name),
            body: text::optional(self.body),
            html_url: text::optional(self.html_url),
            published_at: text::optional(self.published_at),
        }
    }
}

/// The content of a `ReleaseInfo`.
#[verifier::ext_equal]
pub struct ReleaseView {
    pub current_version: Seq<char>,
    pub latest_version: Seq<char>,
    pub tag_name: Seq<char>,
    pub name: Seq<char>,
    pub body: Seq<char>,
    pub html_url: Seq<char>,
    pub published_at: Seq<char>,
    pub update_available: bool,
}

impl View for ReleaseInfo {
    type V = ReleaseView;

    open spec fn view(&self) -> ReleaseView {
        ReleaseView {
            current_version: self.current_version@,
            latest_version: self.latest_version@,
            tag_name: self.tag_name@,
            name: self.name@,
            body: self.body@,
            html_url: self.html_url@,
            published_at: self.published_at@,
            update_available: self.update_available,
        }
    }
}

/// What a release means to a launcher of some version; a release needs a tag. What is
/// missing reads as empty.
pub open spec fn release_outcome(fields: ReleaseFieldsView, current: Seq<char>) -> Result<
    ReleaseView,
    Seq<char>,
> {
    let nothing = Seq::<char>::empty();
    let tag = text::text_or(fields.tag_name, nothing);
    let latest = text::trimmed_start(tag, Class::OneOf("vV"));
    if tag.len() == 0 {
        Err("GitHub 没有可用的最新 Release"@)
    } else {
        Ok(
            ReleaseView {
                current_version: current,
                latest_version: latest,
                tag_name: tag,
                name: text::text_or(fields.name, nothing),
                body: text::text_or(fields.body, nothing),
                html_url: text::text_or(fields.html_url, nothing),
                published_at: text::text_or(fields.published_at, nothing),
                update_available: util::newer(
                    util::version_numbers(latest),
                    util::version_numbers(current),
                ),
            },
        )
    }
}

/// A release, or the complaint in its place.
pub open spec fn release_or(
    r: Result<ReleaseInfo, String>,
    expected: Result<ReleaseView, Seq<char>>,
) -> bool {
    match expected {
        Ok(release) => r is Ok && r->Ok_0@ == release,
        Err(message) => r is Err && r->Err_0@ == message,
    }
}

/// Compares a release with the version of the launcher.
pub fn release_info(fields: ReleaseFields, current: &str) -> (r: Result<ReleaseInfo, String>)
    ensures
        release_or(r, release_outcome(fields@, current@)),
{
    let ghost content = fields@;
    let tag_name: String = text::or_text(fields.tag_name, "");
    proof {
        reveal_strlit("");
        assert(""@ =~= Seq::<char>::empty());
    }
    if tag_name.as_str().is_empty() {
        return Err("GitHub 没有可用的最新 Release".to_string());
    }
    let latest_version: String = text::trim_start_matches(tag_name.as_str(), Class::OneOf("vV"));
    let latest_key: Vec<u64> = util::version_key(latest_version.as_str());
    let current_key: Vec<u64> = util::version_key(current);
    let update_available: bool = util::is_newer(&latest_key, &current_key);
    let r = ReleaseInfo {
        current_version: current.to_owned(),
        latest_version,
        tag_name,
        name: text::or_text(fields.name, ""),
        body: text::or_text(fields.body, ""),
        html_url: text::or_text(fields.html_url, ""),
        published_at: text::or_text(fields.published_at, ""),
        update_available,
    };
    assert(release_outcome(content, current@) is Ok);
    assert(r@ =~= release_outcome(content, current@)->Ok_0);
    Ok(r)
}

/// What is read of a release, from its description.
pub open spec fn release_fields(value: serde_json::Value) -> ReleaseFieldsView {
    ReleaseFieldsView {
        tag_name: json::text_field(value, "tag_name"@),
        name: json::text_field(value, "name"@),
        body: json::text_field(value, "body"@),
        html_url: json::text_field(value, "html_url"@),
        published_at: json::text_field(value, "published_at"@),
    }
}

/// What GitHub's description of the newest release comes to.
pub open spec fn described_release(description: Seq<char>, current: Seq<char>) -> Result<
    ReleaseView,
    Seq<char>,
> {
    match json::json_parse(description) {
        Ok(value) => release_outcome(release_fields(value), current),
        Err(error) => Err("GitHub Release 响应无效："@ + json::error_chars(error)),
    }
}

/// Compares the newest release, as GitHub describes it, with the version of the launcher.
pub fn check_launcher_update(description: &str, current: &str) -> (r: Result<ReleaseInfo, String>)
    ensures
        release_or(r, described_release(description@, current@)),
{
    match json::parse(description) {
        Err(error) => {
            let reason: String = json::error_text(&error);
            Err(invalid_release(reason.as_str()))
        },
        Ok(value) => {
            let fields = ReleaseFields {
                tag_name: json::text_at(&value, "tag_name"),
                name: json::text_at(&value, "name"),
                body: json::text_at(&value, "body"),
                html_url: json::text_at(&value, "html_url"),
                published_at: json::text_at(&value, "published_at"),
            };
            assert(fields@ =~= release_fields(value));
            release_info(fields, current)
        },
    }
}

/// Says that GitHub's answer cannot be read.
pub fn invalid_release(error: &str) -> (r: String)
    ensures
        r@ == "GitHub Release 响应无效："@ + error@,
{
    let mut message: String = "GitHub Release 响应无效：".to_string();
    message.append(error);
    message
}

/// Says that GitHub cannot be reached.
pub fn unreachable_release(error: &str) -> (r: String)
    ensures
        r@ == "无法访问 GitHub Release："@ + error@,
{
    let mut message: String = "无法访问 GitHub Release：".to_string();
    message.append(error);
    message
}

/// A release whose tag is the launcher's own version is no update, with a `v` in front or
/// without.
pub proof fn law_the_same_version_is_no_update(fields: ReleaseFieldsView, current: Seq<char>)
    requires
        fields.tag_name == Some(current) || fields.tag_name == Some(seq!['v'] + current),
        text::trimmed_start(current, Class::OneOf("vV")) == current,
        current.len() > 0,
    ensures
        release_outcome(fields, current) is Ok,
        !release_outcome(fields, current)->Ok_0.update_available,
{
    let class = Class::OneOf("vV");
    let longer = seq!['v'] + current;
    assert(text::trimmed_start(longer, class) == current) by {
        reveal_strlit("vV");
        assert("vV"@[0] == 'v');
        assert(class.has(longer[0]));
        assert(longer.drop_first() =~= current);
    }
    util::law_versions_are_ordered(util::version_numbers(current), util::version_numbers(current));
}

/// The command that asks npm for the newest version of dsh.
pub open spec fn version_query(
    config: LauncherConfig,
    resolved: Result<String, String>,
    platform: Platform,
) -> CommandView {
    exec::npm(resolved, platform).with_args(
        seq!["view"@, config.npx_package@, "version"@, "--json"@],
    ).prepared(config)
}

/// Makes the command that asks npm for the newest version of dsh. `resolved` is what `npm`
/// resolves to; it matters on Windows only.
pub fn latest_version_command(
    config: &LauncherConfig,
    resolved: Result<String, String>,
    platform: Platform,
) -> (r: Invocation)
    ensures
        r@ == InvocationView::of(
            version_query(*config, resolved, platform),
            exec::QUERY_TIMEOUT,
            platform,
        ),
{
    let mut npm: CommandSpec = exec::npm_command(resolved, platform);
    npm.arg("view");
    npm.arg(config.npx_package.as_str());
    npm.arg("version");
    npm.arg("--json");
    let command: CommandSpec = exec::prepare_command(npm, config);
    assert(command@ =~= version_query(*config, resolved, platform));
    Invocation::new(command, exec::QUERY_TIMEOUT, platform)
}

/// Makes the command that asks dsh for its version.
pub fn current_version_command(
    config: &LauncherConfig,
    resolved: Result<String, String>,
    platform: Platform,
) -> (r: Result<Invocation, String>)
    ensures
        exec::invocation_or(
            r,
            exec::invocation_outcome(*config, seq!["--version"@], resolved, platform),
            *config,
            exec::QUERY_TIMEOUT,
            platform,
        ),
{
    let mut args: Vec<String> = Vec::new();
    args.push("--version".to_string());
    assert(args.deep_view() =~= seq!["--version"@]);
    exec::run_dsh_invocation(config, &args, exec::QUERY_TIMEOUT, resolved, platform)
}

/// The version that a command printed, or the word for its failure.
pub open spec fn printed_version(result: OperationResult, failure: Seq<char>) -> Seq<char> {
    if result.success {
        first_version(text::split_on(result.output@, Class::White))
    } else {
        failure
    }
}

/// Where dsh comes from.
pub open spec fn package_source(config: LauncherConfig) -> Seq<char> {
    match config.launch_mode {
        LaunchMode::Command => config.executable@,
        LaunchMode::Npx => "npx "@ + config.npx_package@,
    }
}

/// What is known of the versions of dsh, at a time in seconds.
pub open spec fn is_package_info(
    info: PackageInfo,
    config: LauncherConfig,
    current: OperationResult,
    latest: OperationResult,
    seconds: u64,
) -> bool {
    &&& info.current_version@ == printed_version(current, "不可用"@)
    &&& info.latest_version@ == printed_version(latest, "查询失败"@)
    &&& info.source@ == package_source(config)
    &&& info.checked_at@ == text::decimal(seconds as nat)
    &&& info.detail@ == exec::two_lines(current.output@, latest.output@)
}

/// Puts together what is known of the versions of dsh, at a time in seconds.
pub fn package_info(
    config: &LauncherConfig,
    current: &OperationResult,
    latest: &OperationResult,
    seconds: u64,
) -> (r: PackageInfo)
    ensures
        is_package_info(r, *config, *current, *latest, seconds),
{
    let current_version: String = if current.success {
        extract_version(current.output.as_str())
    } else {
        "不可用".to_string()
    };
    let latest_version: String = if latest.success {
        extract_version(latest.output.as_str())
    } else {
        "查询失败".to_string()
    };
    let source: String = match config.launch_mode {
        LaunchMode::Command => config.executable.clone(),
        LaunchMode::Npx => {
            let mut out: String = "npx ".to_string();
            out.append(config.npx_package.as_str());
            out
        },
    };
    PackageInfo {
        current_version,
        latest_version,
        source,
        checked_at: text::decimal_text(seconds),
        detail: exec::on_two_lines(current.output.as_str(), latest.output.as_str()),
    }
}

/// Puts together what is known of the versions of dsh now.
pub fn get_package_info(
    config: &LauncherConfig,
    current: &OperationResult,
    latest: &OperationResult,
) -> (r: PackageInfo)
    ensures
        exists|time: std::time::SystemTime|
            is_package_info(
                r,
                *config,
                *current,
                *latest,
                util::clock_seconds(#[trigger] util::seconds_since_epoch(time)),
            ),
{
    let seconds: u64 = util::epoch_secs();
    package_info(config, current, latest, seconds)
}

/// A change of the installation: its steps, and the command that makes it.
pub struct Maintenance {
    pub steps: Vec<MaintenanceStep>,
    pub invocation: Invocation,
}

/// Why an update is refused while another change is under way.
pub open spec fn update_complaint(busy: Option<Seq<char>>) -> Seq<char> {
    text::text_or(busy, "另一项插件或更新操作正在进行"@) + "，请等它完成后再更新 dsh"@
}

/// The command that installs the newest version of dsh.
pub open spec fn install_command(
    config: LauncherConfig,
    resolved: Result<String, String>,
    platform: Platform,
) -> CommandView {
    exec::npm(resolved, platform).with_args(
        seq!["install"@, "--global"@, config.npx_package@ + "@latest"@],
    ).prepared(config)
}

/// What is shown while dsh is being updated.
pub fn update_label() -> (r: String)
    ensures
        r@ == "正在更新 dsh"@,
{
    "正在更新 dsh".to_string()
}

/// The outcome of planning an update of dsh.
pub open spec fn is_update_plan<C>(
    r: Result<Maintenance, String>,
    config: LauncherConfig,
    idle: bool,
    runtime: RuntimeState<C>,
    resolved: Result<String, String>,
    platform: Platform,
) -> bool {
    if service::let_through(Request::Update, idle) {
        &&& r is Ok
        &&& r->Ok_0.steps@ == service::change_steps(runtime@)
        &&& r->Ok_0.invocation@ == InvocationView::of(
            install_command(config, resolved, platform),
            exec::GLOBAL_INSTALL_TIMEOUT,
            platform,
        )
    } else {
        r is Err && r->Err_0@ == update_complaint(text::optional(runtime.busy))
    }
}

/// Plans an update of dsh, unless the installation is being changed already. The service
/// runs from the directory that the update rewrites, so it is interrupted.
pub fn update_dsh<C>(
    config: &LauncherConfig,
    idle: bool,
    runtime: &RuntimeState<C>,
    resolved: Result<String, String>,
    platform: Platform,
) -> (r: Result<Maintenance, String>)
    ensures
        is_update_plan(r, *config, idle, *runtime, resolved, platform),
{
    if !idle {
        let mut message: String = text::or_text(
            state::busy_label(Some(runtime)),
            "另一项插件或更新操作正在进行",
        );
        message.append("，请等它完成后再更新 dsh");
        return Err(message);
    }
    let mut npm: CommandSpec = exec::npm_command(resolved, platform);
    let mut package: String = config.npx_package.clone();
    package.append("@latest");
    npm.arg("install");
    npm.arg("--global");
    npm.arg(package.as_str());
    let command: CommandSpec = exec::prepare_command(npm, config);
    assert(command@ =~= install_command(*config, resolved, platform));
    Ok(
        Maintenance {
            steps: service::maintenance_steps(runtime),
            invocation: Invocation::new(command, exec::GLOBAL_INSTALL_TIMEOUT, platform),
        },
    )
}

/// A release is an update exactly where the numbers of its tag outrank those of the launcher's
/// version, with a `v` in front of the tag or without.
pub proof fn law_a_newer_release_is_an_update(
    fields: ReleaseFieldsView,
    latest: Seq<u64>,
    current: Seq<u64>,
)
    requires
        latest.len() > 0,
        latest.last() != 0,
        current.len() > 0,
        current.last() != 0,
        fields.tag_name == Some(text::joined(util::decimals(latest), "."@)) || fields.tag_name == Some(
            seq!['v'] + text::joined(util::decimals(latest), "."@),
        ),
    ensures
        ({
            let version = text::joined(util::decimals(current), "."@);
            let release = release_outcome(fields, version);
            &&& release is Ok
            &&& release->Ok_0.latest_version == text::joined(util::decimals(latest), "."@)
            &&& release->Ok_0.update_available <==> util::outranks(latest, current)
        }),
{
    let tag = fields.tag_name->0;
    let plain = text::joined(util::decimals(latest), "."@);
    let class = Class::OneOf("vV");
    util::law_the_numbers_of_a_version_are_read(latest);
    util::law_the_numbers_of_a_version_are_read(current);
    util::law_the_first_difference_decides(latest, current);
    lemma_starts_with_a_digit(latest);
    reveal_strlit("vV");
    assert("vV"@[0] == 'v');
    assert(!class.has(plain[0]));
    assert(text::trimmed_start(plain, class) == plain);
    if tag != plain {
        assert(tag.drop_first() =~= plain);
        assert(class.has(tag[0]));
        assert(text::trimmed_start(tag, class) == plain);
    }
}

/// Numbers with dots between them start with a digit.
proof fn lemma_starts_with_a_digit(numbers: Seq<u64>)
    requires
        numbers.len() > 0,
    ensures
        text::joined(util::decimals(numbers), "."@).len() > 0,
        text::is_digit(text::joined(util::decimals(numbers), "."@)[0]),
    decreases numbers.len(),
{
    let parts = util::decimals(numbers);
    text::lemma_decimal(numbers[0] as nat);
    assert(parts[0] == text::decimal(numbers[0] as nat));
    assert(text::is_digit(parts[0][0]));
    if numbers.len() > 1 {
        lemma_starts_with_a_digit(numbers.drop_last());
        assert(parts.drop_last() =~= util::decimals(numbers.drop_last()));
    }
}

/// A release is told as GitHub describes it, the version being the tag without each `v` in
/// front. Without a tag there is none.
pub proof fn law_a_release_is_told_as_it_is(fields: ReleaseFieldsView, current: Seq<char>)
    ensures
        fields.tag_name is None || fields.tag_name->0.len() == 0 ==> release_outcome(fields, current)
            == Err::<ReleaseView, Seq<char>>("GitHub 没有可用的最新 Release"@),
        fields.tag_name is Some && fields.tag_name->0.len() > 0 ==> ({
            let release = release_outcome(fields, current)->Ok_0;
            let cut = release.tag_name.len() - release.latest_version.len();
            &&& release_outcome(fields, current) is Ok
            &&& release.current_version == current
            &&& release.tag_name == fields.tag_name->0
            &&& 0 <= cut <= release.tag_name.len()
            &&& release.latest_version == release.tag_name.skip(cut)
            &&& forall|i: int|
                0 <= i < cut ==> #[trigger] release.tag_name[i] == 'v' || release.tag_name[i] == 'V'
            &&& cut < release.tag_name.len() ==> release.tag_name[cut] != 'v'
                && release.tag_name[cut] != 'V'
            &&& fields.name is Some ==> release.name == fields.name->0
            &&& fields.name is None ==> release.name.len() == 0
            &&& fields.body is Some ==> release.body == fields.body->0
            &&& fields.body is None ==> release.body.len() == 0
            &&& fields.html_url is Some ==> release.html_url == fields.html_url->0
            &&& fields.html_url is None ==> release.html_url.len() == 0
            &&& fields.published_at is Some ==> release.published_at == fields.published_at->0
            &&& fields.published_at is None ==> release.published_at.len() == 0
        }),
{
    if fields.tag_name is Some {
        let tag = fields.tag_name->0;
        text::law_trimming_the_start_takes_off_the_class(tag, Class::OneOf("vV"));
        reveal_strlit("vV");
        assert("vV"@[0] == 'v' && "vV"@[1] == 'V');
        assert forall|i: int| 0 <= i < tag.len() implies (Class::OneOf("vV").has(#[trigger] tag[i])
            <==> tag[i] == 'v' || tag[i] == 'V') by {}
    }
}

/// Each part of a release is read from the key of its name.
pub proof fn law_a_release_is_read_by_its_keys(
    value: serde_json::Value,
    fields: Seq<(Seq<char>, serde_json::Value)>,
    at: int,
)
    requires
        json::json_fields(value) == Some(fields),
        forall|i: int, j: int|
            0 <= i < j < fields.len() ==> #[trigger] fields[i].0 != #[trigger] fields[j].0,
        0 <= at < fields.len(),
    ensures
        fields[at].0 == "tag_name"@ ==> release_fields(value).tag_name == json::json_text(fields[at].1),
        fields[at].0 == "name"@ ==> release_fields(value).name == json::json_text(fields[at].1),
        fields[at].0 == "body"@ ==> release_fields(value).body == json::json_text(fields[at].1),
        fields[at].0 == "html_url"@ ==> release_fields(value).html_url == json::json_text(fields[at].1),
        fields[at].0 == "published_at"@ ==> release_fields(value).published_at == json::json_text(
            fields[at].1,
        ),
{
    json::law_the_text_of_a_key_is_read(value, fields, at, fields[at].0);
}

/// What is printed between quotes, commas and brackets is the version exactly where it begins
/// with a digit and nothing before it does.
pub proof fn law_the_first_version_is_found(pieces: Seq<Seq<char>>, at: int)
    requires
        forall|i: int|
            0 <= i < at ==> ({
                let bare = text::trimmed(#[trigger] pieces[i], Class::OneOf("\"',[]"));
                bare.len() == 0 || !('0' <= bare[0] <= '9')
            }),
        0 <= at <= pieces.len(),
        at < pieces.len() ==> ({
            let bare = text::trimmed(pieces[at], Class::OneOf("\"',[]"));
            bare.len() > 0 && '0' <= bare[0] <= '9'
        }),
    ensures
        at < pieces.len() ==> first_version(pieces) == text::trimmed(
            pieces[at],
            Class::OneOf("\"',[]"),
        ),
        at == pieces.len() ==> first_version(pieces) == "未知"@,
    decreases pieces.len(),
{
    if at > 0 {
        let rest = pieces.drop_first();
        assert(pieces[0] == pieces[0]);
        assert(!begins_with_digit(text::trimmed(pieces[0], Class::OneOf("\"',[]"))));
        assert forall|i: int| 0 <= i < at - 1 implies ({
            let bare = text::trimmed(#[trigger] rest[i], Class::OneOf("\"',[]"));
            bare.len() == 0 || !('0' <= bare[0] <= '9')
        }) by {
            assert(rest[i] == pieces[i + 1]);
        }
        law_the_first_version_is_found(rest, at - 1);
    }
}

/// A version that stands alone in what a command printed, in quotes or without and with any
/// white space around it, is what is found.
pub proof fn law_a_printed_version_is_found(before: Seq<char>, version: Seq<char>, after: Seq<char>)
    requires
        version.len() > 0,
        '0' <= version[0] <= '9',
        !"\"',[]"@.contains(version.last()),
        forall|i: int| 0 <= i < version.len() ==> !text::is_white(#[trigger] version[i]),
        forall|i: int| 0 <= i < before.len() ==> text::is_white(#[trigger] before[i]),
        forall|i: int| 0 <= i < after.len() ==> text::is_white(#[trigger] after[i]),
    ensures
        first_version(text::split_on(before + version + after, Class::White)) == version,
        first_version(text::split_on(before + (seq!['"'] + version + seq!['"']) + after, Class::White))
            == version,
{
    let class = Class::OneOf("\"',[]");
    reveal_strlit("\"',[]");
    let marks = "\"',[]"@;
    assert(marks[0] == '"');
    assert(class.has('"'));
    assert(!class.has(version[0]));
    assert(text::is_core(version, class, 0, version.len() as int));
    text::law_trimming_keeps_the_core(version, class, 0, version.len() as int);
    assert(version.subrange(0, version.len() as int) =~= version);
    lemma_alone(before, version, after, version);
    let quoted = seq!['"'] + version + seq!['"'];
    assert(quoted.subrange(1, version.len() as int + 1) =~= version);
    assert(text::is_core(quoted, class, 1, version.len() as int + 1));
    text::law_trimming_keeps_the_core(quoted, class, 1, version.len() as int + 1);
    assert forall|i: int| 0 <= i < quoted.len() implies !text::is_white(#[trigger] quoted[i]) by {
        if 0 < i <= version.len() {
            assert(quoted[i] == version[i - 1]);
        }
    }
    lemma_alone(before, quoted, after, version);
}

/// The only word in a text is the version in it.
proof fn lemma_alone(before: Seq<char>, word: Seq<char>, after: Seq<char>, version: Seq<char>)
    requires
        word.len() > 0,
        forall|i: int| 0 <= i < word.len() ==> !text::is_white(#[trigger] word[i]),
        forall|i: int| 0 <= i < before.len() ==> text::is_white(#[trigger] before[i]),
        forall|i: int| 0 <= i < after.len() ==> text::is_white(#[trigger] after[i]),
        text::trimmed(word, Class::OneOf("\"',[]")) == version,
        begins_with_digit(version),
    ensures
        first_version(text::split_on(before + word + after, Class::White)) == version,
{
    let all = text::split_on(before + word + after, Class::White);
    lemma_pieces_around(before, word, after);
    let at = before.len() as int;
    assert forall|i: int| 0 <= i < at implies ({
        let bare = text::trimmed(#[trigger] all[i], Class::OneOf("\"',[]"));
        bare.len() == 0 || !('0' <= bare[0] <= '9')
    }) by {
        assert(text::trimmed(Seq::<char>::empty(), Class::OneOf("\"',[]")).len() == 0);
    }
    law_the_first_version_is_found(all, at);
}

/// White space before a word cuts empty pieces off, and white space behind it does not touch
/// the word.
proof fn lemma_pieces_around(before: Seq<char>, word: Seq<char>, after: Seq<char>)
    requires
        forall|i: int| 0 <= i < word.len() ==> !text::is_white(#[trigger] word[i]),
        forall|i: int| 0 <= i < before.len() ==> text::is_white(#[trigger] before[i]),
        forall|i: int| 0 <= i < after.len() ==> text::is_white(#[trigger] after[i]),
    ensures
        ({
            let all = text::split_on(before + word + after, Class::White);
            &&& all.len() == before.len() + 1 + after.len()
            &&& all[before.len() as int] == word
            &&& forall|i: int| 0 <= i < before.len() ==> (#[trigger] all[i]) == Seq::<char>::empty()
        }),
    decreases after.len(), before.len(),
{
    let class = Class::White;
    if after.len() > 0 {
        let shorter = after.drop_last();
        assert forall|i: int| 0 <= i < shorter.len() implies text::is_white(#[trigger] shorter[i]) by {
            assert(shorter[i] == after[i]);
        }
        lemma_pieces_around(before, word, shorter);
        assert(text::is_white(after[after.len() - 1]));
        assert((before + word + after).drop_last() =~= before + word + shorter);
    } else {
        assert(before + word + after =~= before + word);
        if before.len() > 0 {
            let shorter = before.drop_last();
            assert(text::is_white(before[before.len() - 1]));
            assert forall|i: int| 0 <= i < shorter.len() implies text::is_white(
                #[trigger] shorter[i],
            ) by {
                assert(shorter[i] == before[i]);
            }
            let nothing = Seq::<char>::empty();
            lemma_pieces_around(shorter, nothing, nothing);
            assert(shorter + nothing + nothing =~= shorter);
            text::law_a_text_is_cut_at_the_class(shorter, before.last(), word, class);
            assert(shorter + seq![before.last()] + word =~= before + word);
            let pieces = text::split_on(shorter, class);
            assert forall|i: int| 0 <= i < before.len() implies (#[trigger] pieces.push(word)[i])
                == nothing by {}
        } else {
            text::law_a_text_is_cut_at_the_class(before, ' ', word, class);
            assert(before + word =~= word);
        }
    }
}

/// What is said of the versions of dsh: what the command printed where it succeeded, the word
/// for its failure where it did not, and by which program dsh is run.
pub proof fn law_versions_are_told_where_they_are_known(
    result: OperationResult,
    failure: Seq<char>,
    config: LauncherConfig,
)
    ensures
        !result.success ==> printed_version(result, failure) == failure,
        result.success ==> printed_version(result, failure) == first_version(
            text::split_on(result.output@, Class::White),
        ),
        config.launch_mode == LaunchMode::Command ==> package_source(config) == config.executable@,
        config.launch_mode == LaunchMode::Npx ==> package_source(config) == "npx "@
            + config.npx_package@,
{
}

/// What npm is asked and told: the newest version of the package of the settings, and to
/// install it for all. Both run where the settings say.
pub proof fn law_npm_is_asked_for_the_package_of_the_settings(
    config: LauncherConfig,
    resolved: Result<String, String>,
    platform: Platform,
)
    ensures
        version_query(config, resolved, platform).args == seq![
            "view"@,
            config.npx_package@,
            "version"@,
            "--json"@,
        ],
        install_command(config, resolved, platform).args == seq![
            "install"@,
            "--global"@,
            config.npx_package@ + "@latest"@,
        ],
        version_query(config, resolved, platform).program == install_command(
            config,
            resolved,
            platform,
        ).program,
        version_query(config, resolved, platform).current_dir == Some(config.working_directory@),
        install_command(config, resolved, platform).current_dir == Some(config.working_directory@),
        platform != Platform::Windows ==> install_command(config, resolved, platform).program == "npm"@,
        platform == Platform::Windows && resolved is Ok ==> install_command(
            config,
            resolved,
            platform,
        ).program == resolved->Ok_0@,
{
    assert(version_query(config, resolved, platform).args =~= seq![
        "view"@,
        config.npx_package@,
        "version"@,
        "--json"@,
    ]);
    assert(install_command(config, resolved, platform).args =~= seq![
        "install"@,
        "--global"@,
        config.npx_package@ + "@latest"@,
    ]);
}

/// The refusal of an update names what is under way.
pub proof fn law_a_refused_update_says_why(label: Seq<char>)
    ensures
        label.is_prefix_of(update_complaint(Some(label))),
        update_complaint(Some(label)).skip(label.len() as int) == "，请等它完成后再更新 dsh"@,
        update_complaint(None) == "另一项插件或更新操作正在进行"@ + "，请等它完成后再更新 dsh"@,
{
    let message = update_complaint(Some(label));
    assert(message.subrange(0, label.len() as int) =~= label);
    assert(message.skip(label.len() as int) =~= "，请等它完成后再更新 dsh"@);
}

/// What is known of dsh is told as npm and dsh printed it, with the program that was asked and the
/// time of the answer.
pub proof fn law_what_is_known_of_dsh(
    info: PackageInfo,
    config: LauncherConfig,
    current: OperationResult,
    latest: OperationResult,
    seconds: u64,
)
    requires
        is_package_info(info, config, current, latest, seconds),
    ensures
        !current.success ==> info.current_version@ == "不可用"@,
        !latest.success ==> info.latest_version@ == "查询失败"@,
        current.success ==> info.current_version@ == first_version(
            text::split_on(current.output@, Class::White),
        ),
        latest.success ==> info.latest_version@ == first_version(
            text::split_on(latest.output@, Class::White),
        ),
        config.launch_mode == LaunchMode::Command ==> info.source@ == config.executable@,
        config.launch_mode == LaunchMode::Npx ==> info.source@ == "npx "@ + config.npx_package@,
        info.checked_at@ == text::decimal(seconds as nat),
        info.detail@ == exec::two_lines(current.output@, latest.output@),
{
}

/// An update is planned exactly while nothing else changes the installation; it installs the newest
/// version for everyone and gets ten minutes.
pub proof fn law_when_dsh_is_updated<C>(
    r: Result<Maintenance, String>,
    config: LauncherConfig,
    idle: bool,
    runtime: RuntimeState<C>,
    resolved: Result<String, String>,
    platform: Platform,
)
    requires
        is_update_plan(r, config, idle, runtime, resolved, platform),
    ensures
        r is Ok <==> idle,
        r is Ok ==> r->Ok_0.steps@ == service::change_steps(runtime@),
        r is Ok ==> r->Ok_0.invocation@.timeout == 600,
        r is Ok ==> r->Ok_0.invocation@.command == exec::npm(resolved, platform).with_args(
            seq!["install"@, "--global"@, config.npx_package@ + "@latest"@],
        ).prepared(config),
        r is Err ==> r->Err_0@ == update_complaint(text::optional(runtime.busy)),
{
}

/// A release is known only where GitHub's description of it can be read.
pub proof fn law_when_a_release_is_known(description: Seq<char>, current: Seq<char>)
    ensures
        json::json_parse(description) is Ok ==> described_release(description, current)
            == release_outcome(release_fields(json::json_parse(description)->Ok_0), current),
        json::json_parse(description) is Err ==> described_release(description, current) == Err::<
            ReleaseView,
            Seq<char>,
        >("GitHub Release 响应无效："@ + json::error_chars(json::json_parse(description)->Err_0)),
{
}

/// Nothing is made up of a release: what GitHub gives no key for is missing.
pub proof fn law_what_a_release_lacks_is_missing(
    value: serde_json::Value,
    fields: Seq<(Seq<char>, serde_json::Value)>,
    key: Seq<char>,
)
    requires
        json::json_fields(value) == Some(fields),
        forall|i: int, j: int|
            0 <= i < j < fields.len() ==> #[trigger] fields[i].0 != #[trigger] fields[j].0,
        forall|i: int| 0 <= i < fields.len() ==> (#[trigger] fields[i]).0 != key,
    ensures
        key == "tag_name"@ ==> release_fields(value).tag_name is None,
        key == "name"@ ==> release_fields(value).name is None,
        key == "body"@ ==> release_fields(value).body is None,
        key == "html_url"@ ==> release_fields(value).html_url is None,
        key == "published_at"@ ==> release_fields(value).published_at is None,
{
    json::law_the_text_of_a_key_is_read(value, fields, 0, key);
}

/// What a release comes to is what is answered.
pub proof fn law_a_release_is_answered(
    r: Result<ReleaseInfo, String>,
    expected: Result<ReleaseView, Seq<char>>,
)
    requires
        release_or(r, expected),
    ensures
        r is Ok <==> expected is Ok,
        r is Ok ==> r->Ok_0@ == expected->Ok_0,
        r is Err ==> r->Err_0@ == expected->Err_0,
{
}

} // verus!
