//! Plugins: which are installed, which can be found, and how they come and go.

use vstd::prelude::*;

use crate::config;
use crate::config::LauncherConfig;
use crate::exec;
use crate::exec::{CommandSpec, CommandView, Invocation, InvocationView, OperationResult, Platform};
use crate::json;
use crate::service;
use crate::service::{MaintenanceStep, Request};
use crate::state::RuntimeState;
use crate::text;

verus! {

/// A plugin's specifier may have this many bytes.
pub const MAX_SPEC_BYTES: usize = 240;

/// A plugin of the web profile.
#[derive(Clone, Debug)]
pub struct InstalledPlugin {
    pub name: String,
    pub version: String,
    pub bundle: bool,
}

/// A plugin that npm found.
#[derive(Clone, Debug)]
pub struct PluginSearchResult {
    pub name: String,
    pub version: String,
    pub description: String,
    pub homepage: String,
    pub npm_url: String,
    pub keywords: Vec<String>,
}

/// A plugin's specifier that can go into a command.
pub open spec fn safe_plugin_spec(value: Seq<char>) -> bool {
    &&& value.len() > 0
    &&& vstd::utf8::encode_utf8(value).len() <= MAX_SPEC_BYTES
    &&& forall|i: int|
        0 <= i < value.len() ==> text::is_alphanumeric(#[trigger] value[i]) || "@/._-:# +~="@.contains(
            value[i],
        )
}

/// Accepts specifiers such as `github:owner/plugin`.
pub fn is_safe_plugin_spec(value: &str) -> (r: bool)
    ensures
        r == safe_plugin_spec(value@),
{
    let bytes: &[u8] = value.as_bytes();
    !value.is_empty() && bytes.len() <= MAX_SPEC_BYTES && config::only_plain_chars(
        value,
        "@/._-:# +~=",
    )
}

/// Why a specifier is refused, where it is.
pub open spec fn spec_complaint(value: Seq<char>) -> Option<Seq<char>> {
    if safe_plugin_spec(value) {
        None
    } else {
        Some("插件标识包含不支持的字符"@)
    }
}

/// Refuses specifiers that cannot go into a command.
pub fn check_plugin_spec(value: &str) -> (r: Result<(), String>)
    ensures
        match spec_complaint(value@) {
            Some(message) => r is Err && r->Err_0@ == message,
            None => r is Ok,
        },
{
    if is_safe_plugin_spec(value) {
        Ok(())
    } else {
        Err("插件标识包含不支持的字符".to_string())
    }
}

/// A package that the web profile depends on, with the version that it asks for.
pub struct Dependency {
    pub name: String,
    pub version: Option<String>,
}

/// The content of a `Dependency`.
pub open spec fn dependency_view(dependency: Dependency) -> (Seq<char>, Option<Seq<char>>) {
    (dependency.name@, text::optional(dependency.version))
}

/// The contents of dependencies.
pub open spec fn dependency_views(dependencies: Seq<Dependency>) -> Seq<
    (Seq<char>, Option<Seq<char>>),
> {
    dependencies.map_values(|dependency: Dependency| dependency_view(dependency))
}

/// The dependencies that a manifest lists: none where it lists them in no object.
pub open spec fn listed_dependencies(manifest: serde_json::Value) -> Seq<
    (Seq<char>, Option<Seq<char>>),
> {
    match json::field(json::json_fields(manifest), "dependencies"@) {
        Some(dependencies) => match json::json_fields(dependencies) {
            Some(fields) => fields.map_values(
                |field: (Seq<char>, serde_json::Value)| (field.0, json::json_text(field.1)),
            ),
            None => Seq::empty(),
        },
        None => Seq::empty(),
    }
}

/// The dependencies that a manifest lists, or the complaint that it cannot be read.
pub open spec fn are_dependencies(r: Result<Vec<Dependency>, String>, manifest: Seq<char>) -> bool {
    match json::json_parse(manifest) {
        Ok(value) => r is Ok && dependency_views(r->Ok_0@) == listed_dependencies(value),
        Err(error) => r is Err && r->Err_0@ == "profile package.json 无效："@ + json::error_chars(
            error,
        ),
    }
}

/// Reads the dependencies of the web profile from its manifest.
pub fn dependencies(manifest: &str) -> (r: Result<Vec<Dependency>, String>)
    ensures
        are_dependencies(r, manifest@),
{
    let value: serde_json::Value = match json::parse(manifest) {
        Ok(value) => value,
        Err(error) => {
            let reason: String = json::error_text(&error);
            let mut message: String = "profile package.json 无效：".to_string();
            message.append(reason.as_str());
            return Err(message);
        },
    };
    let mut out: Vec<Dependency> = Vec::new();
    assert(dependency_views(out@) =~= Seq::empty());
    let list: Option<&serde_json::Value> = json::get(&value, "dependencies");
    match list {
        Some(object) => match json::as_fields(object) {
            Some(fields) => {
                let ghost all = listed_dependencies(value);
                assert(all.len() == fields@.len());
                let mut at: usize = 0;
                while at < fields.len()
                    invariant
                        at <= fields.len(),
                        all.len() == fields@.len(),
                        all == listed_dependencies(value),
                        forall|i: int|
                            0 <= i < fields@.len() ==> all[i] == (
                                fields@[i].0@,
                                json::json_text(*(#[trigger] fields@[i]).1),
                            ),
                        dependency_views(out@) == all.take(at as int),
                    decreases fields.len() - at,
                {
                    let ghost before = dependency_views(out@);
                    let name: String = fields[at].0.clone();
                    let version: Option<String> = json::as_text(fields[at].1);
                    let dependency = Dependency { name, version };
                    assert(dependency_view(dependency) == all[at as int]);
                    out.push(dependency);
                    assert(dependency_views(out@) =~= before.push(all[at as int]));
                    assert(dependency_views(out@) =~= all.take(at + 1));
                    at += 1;
                }
                assert(all.take(at as int) =~= all);
            },
            None => {},
        },
        None => {},
    }
    Ok(out)
}

/// The manifest names a bundle for dsh.
pub open spec fn names_bundle(manifest: serde_json::Value) -> bool {
    match json::field(json::json_fields(manifest), "dsh"@) {
        Some(section) => json::field(json::json_fields(section), "bundle"@) is Some,
        None => false,
    }
}

/// A package is a bundle for dsh where its manifest can be read and says so.
pub open spec fn bundled(manifest: Option<&str>) -> bool {
    match manifest {
        Some(document) => match json::json_parse(document@) {
            Ok(value) => names_bundle(value),
            Err(_) => false,
        },
        None => false,
    }
}

/// Tells whether a package is a bundle for dsh, given its manifest if that could be read.
pub fn is_bundle(manifest: Option<&str>) -> (r: bool)
    ensures
        r == bundled(manifest),
{
    match manifest {
        Some(document) => match json::parse(document) {
            Ok(value) => match json::get(&value, "dsh") {
                Some(section) => json::get(section, "bundle").is_some(),
                None => false,
            },
            Err(_) => false,
        },
        None => false,
    }
}

/// A dependency as it is shown; any version will do where none is asked for.
pub open spec fn shown_plugin(
    plugin: InstalledPlugin,
    dependency: (Seq<char>, Option<Seq<char>>),
    bundle: bool,
) -> bool {
    &&& plugin.name@ == dependency.0
    &&& plugin.version@ == text::text_or(dependency.1, "*"@)
    &&& plugin.bundle == bundle
}

/// Lists the plugins of the web profile, given for each dependency whether it is a bundle.
pub fn list_plugins(dependencies: &Vec<Dependency>, bundles: &Vec<bool>) -> (r: Vec<InstalledPlugin>)
    requires
        dependencies.len() == bundles.len(),
    ensures
        r@.len() == dependencies@.len(),
        forall|i: int|
            0 <= i < r@.len() ==> shown_plugin(
                #[trigger] r@[i],
                dependency_view(dependencies@[i]),
                bundles@[i],
            ),
{
    let mut out: Vec<InstalledPlugin> = Vec::new();
    let mut at: usize = 0;
    while at < dependencies.len()
        invariant
            at <= dependencies.len(),
            dependencies.len() == bundles.len(),
            out.len() == at,
            forall|i: int|
                0 <= i < at ==> shown_plugin(
                    #[trigger] out@[i],
                    dependency_view(dependencies@[i]),
                    bundles@[i],
                ),
        decreases dependencies.len() - at,
    {
        let version: Option<String> = text::clone_optional(&dependencies[at].version);
        out.push(
            InstalledPlugin {
                name: dependencies[at].name.clone(),
                version: text::or_text(version, "*"),
                bundle: bundles[at],
            },
        );
        at += 1;
    }
    out
}

/// What npm is asked for.
pub open spec fn search_words(query: Seq<char>) -> Seq<char> {
    if text::stripped(query).len() == 0 {
        "dsh-plugin"@
    } else {
        text::stripped(query) + " dsh-plugin"@
    }
}

/// The command that asks npm for plugins.
pub open spec fn search_query(
    query: Seq<char>,
    resolved: Result<String, String>,
    platform: Platform,
) -> CommandView {
    exec::npm(resolved, platform).with_args(
        seq!["search"@, "--json"@, "--searchlimit"@, "30"@, search_words(query)],
    )
}

/// Makes the command that asks npm for plugins. `resolved` is what `npm` resolves to; it
/// matters on Windows only.
pub fn search_command(query: &str, resolved: Result<String, String>, platform: Platform) -> (r:
    Invocation)
    ensures
        r@ == InvocationView::of(
            search_query(query@, resolved, platform),
            exec::QUERY_TIMEOUT,
            platform,
        ),
{
    let wish: String = text::trim(query);
    let words: String = if wish.as_str().is_empty() {
        "dsh-plugin".to_string()
    } else {
        let mut out: String = wish;
        out.append(" dsh-plugin");
        out
    };
    let mut command: CommandSpec = exec::npm_command(resolved, platform);
    command.arg("search");
    command.arg("--json");
    command.arg("--searchlimit");
    command.arg("30");
    command.arg(words.as_str());
    assert(command@ =~= search_query(query@, resolved, platform));
    Invocation::new(command, exec::QUERY_TIMEOUT, platform)
}

/// What is read of a package that npm found.
pub struct FoundPackage {
    pub name: Option<String>,
    pub version: Option<String>,
    pub description: Option<String>,
    pub homepage: Option<String>,
    pub npm: Option<String>,
    pub keywords: Vec<String>,
}

/// The content of a `FoundPackage`.
#[verifier::ext_equal]
pub struct FoundView {
    pub name: Option<Seq<char>>,
    pub version: Option<Seq<char>>,
    pub description: Option<Seq<char>>,
    pub homepage: Option<Seq<char>>,
    pub npm: Option<Seq<char>>,
    pub keywords: Seq<Seq<char>>,
}

impl View for FoundPackage {
    type V = FoundView;

    open spec fn view(&self) -> FoundView {
        FoundView {
            name: text::optional(self.name),
            version: text::optional(self.version),
            description: text::optional(self.description),
            homepage: text::optional(self.homepage),
            npm: text::optional(self.npm),
            keywords: self.keywords.deep_view(),
        }
    }
}

/// The content of a `PluginSearchResult`.
#[verifier::ext_equal]
pub struct ResultView {
    pub name: Seq<char>,
    pub version: Seq<char>,
    pub description: Seq<char>,
    pub homepage: Seq<char>,
    pub npm_url: Seq<char>,
    pub keywords: Seq<Seq<char>>,
}

impl View for PluginSearchResult {
    type V = ResultView;

    open spec fn view(&self) -> ResultView {
        ResultView {
            name: self.name@,
            version: self.version@,
            description: self.description@,
            homepage: self.homepage@,
            npm_url: self.npm_url@,
            keywords: self.keywords.deep_view(),
        }
    }
}

/// The keyword speaks of dsh.
pub open spec fn dsh_keyword(keyword: Seq<char>) -> bool {
    let small = text::lowered(keyword);
    ||| text::occurs(small, "dsh-plugin"@)
    ||| text::occurs(small, "deepseek-harness"@)
    ||| text::occurs(small, "dsh"@)
}

/// The package has to do with dsh: by a keyword, or by its name.
pub open spec fn about_dsh(name: Seq<char>, keywords: Seq<Seq<char>>) -> bool {
    ||| exists|i: int| 0 <= i < keywords.len() && dsh_keyword(#[trigger] keywords[i])
    ||| "@deepseek-ai/dsh-"@.is_prefix_of(name)
}

/// The name of a package, empty where it has none.
pub open spec fn found_name(found: FoundView) -> Seq<char> {
    text::text_or(found.name, Seq::empty())
}

/// A package as it is shown.
pub open spec fn shown_result(found: FoundView) -> ResultView {
    ResultView {
        name: found_name(found),
        version: text::text_or(found.version, "未知"@),
        description: text::text_or(found.description, "无描述"@),
        homepage: text::text_or(found.homepage, Seq::empty()),
        npm_url: text::text_or(found.npm, Seq::empty()),
        keywords: found.keywords,
    }
}

/// The packages that have to do with dsh, as they are shown, in their order.
pub open spec fn shown_results(found: Seq<FoundView>) -> Seq<ResultView>
    decreases found.len(),
{
    if found.len() == 0 {
        Seq::empty()
    } else {
        let before = shown_results(found.drop_last());
        if about_dsh(found_name(found.last()), found.last().keywords) {
            before.push(shown_result(found.last()))
        } else {
            before
        }
    }
}

/// Tells whether a package has to do with dsh.
fn is_about_dsh(name: &str, keywords: &Vec<String>) -> (r: bool)
    ensures
        r == about_dsh(name@, keywords.deep_view()),
{
    let ghost all = keywords.deep_view();
    let mut at: usize = 0;
    while at < keywords.len()
        invariant
            at <= keywords.len(),
            all == keywords.deep_view(),
            forall|i: int| 0 <= i < at ==> !dsh_keyword(#[trigger] all[i]),
        decreases keywords.len() - at,
    {
        assert(all[at as int] == keywords@[at as int]@);
        let small: String = text::to_small(keywords[at].as_str());
        if text::contains_text(small.as_str(), "dsh-plugin") || text::contains_text(
            small.as_str(),
            "deepseek-harness",
        ) || text::contains_text(small.as_str(), "dsh") {
            assert(dsh_keyword(all[at as int]));
            return true;
        }
        at += 1;
    }
    assert(all.len() == keywords@.len());
    text::starts_with(name, "@deepseek-ai/dsh-")
}

/// Shows a package.
fn show(found: &FoundPackage) -> (r: PluginSearchResult)
    ensures
        r@ == shown_result(found@),
{
    proof {
        reveal_strlit("");
        assert(""@ =~= Seq::<char>::empty());
    }
    let r = PluginSearchResult {
        name: text::or_text(text::clone_optional(&found.name), ""),
        version: text::or_text(text::clone_optional(&found.version), "未知"),
        description: text::or_text(text::clone_optional(&found.description), "无描述"),
        homepage: text::or_text(text::clone_optional(&found.homepage), ""),
        npm_url: text::or_text(text::clone_optional(&found.npm), ""),
        keywords: text::clone_texts(&found.keywords),
    };
    assert(r@ =~= shown_result(found@));
    r
}

/// The contents of packages.
pub open spec fn found_views(found: Seq<FoundPackage>) -> Seq<FoundView> {
    found.map_values(|package: FoundPackage| package@)
}

/// The contents of results.
pub open spec fn result_views(results: Seq<PluginSearchResult>) -> Seq<ResultView> {
    results.map_values(|result: PluginSearchResult| result@)
}

/// Shows the packages that have to do with dsh.
pub fn search_results(found: &Vec<FoundPackage>) -> (r: Vec<PluginSearchResult>)
    ensures
        result_views(r@) == shown_results(found_views(found@)),
{
    let ghost all = found_views(found@);
    let mut out: Vec<PluginSearchResult> = Vec::new();
    let mut at: usize = 0;
    assert(result_views(out@) =~= shown_results(all.take(0)));
    while at < found.len()
        invariant
            at <= found.len(),
            all == found_views(found@),
            result_views(out@) == shown_results(all.take(at as int)),
        decreases found.len() - at,
    {
        let ghost before = result_views(out@);
        assert(all.take(at + 1).drop_last() =~= all.take(at as int));
        assert(all.take(at + 1).last() == found@[at as int]@);
        let result: PluginSearchResult = show(&found[at]);
        if is_about_dsh(result.name.as_str(), &found[at].keywords) {
            out.push(result);
            assert(result_views(out@) =~= before.push(shown_result(found@[at as int]@)));
        }
        at += 1;
    }
    assert(all.take(at as int) =~= all);
    out
}

/// Everything that is shown has to do with dsh.
pub proof fn law_results_have_to_do_with_dsh(found: Seq<FoundView>)
    ensures
        shown_results(found).len() <= found.len(),
        forall|i: int|
            0 <= i < shown_results(found).len() ==> about_dsh(
                (#[trigger] shown_results(found)[i]).name,
                shown_results(found)[i].keywords,
            ),
    decreases found.len(),
{
    if found.len() > 0 {
        law_results_have_to_do_with_dsh(found.drop_last());
    }
}

/// The texts among some values.
pub open spec fn texts_among(values: Seq<serde_json::Value>) -> Seq<Seq<char>>
    decreases values.len(),
{
    if values.len() == 0 {
        Seq::empty()
    } else {
        let before = texts_among(values.drop_last());
        match json::json_text(values.last()) {
            Some(content) => before.push(content),
            None => before,
        }
    }
}

/// The keywords of a package: the texts in its list of keywords.
pub open spec fn package_keywords(package: serde_json::Value) -> Seq<Seq<char>> {
    match json::field(json::json_fields(package), "keywords"@) {
        Some(list) => match json::json_items(list) {
            Some(items) => texts_among(items),
            None => Seq::empty(),
        },
        None => Seq::empty(),
    }
}

/// A link of a package.
pub open spec fn package_link(package: serde_json::Value, key: Seq<char>) -> Option<Seq<char>> {
    match json::field(json::json_fields(package), "links"@) {
        Some(links) => json::text_field(links, key),
        None => None,
    }
}

/// What is read of a package.
pub open spec fn package_view(package: serde_json::Value) -> FoundView {
    FoundView {
        name: json::text_field(package, "name"@),
        version: json::text_field(package, "version"@),
        description: json::text_field(package, "description"@),
        homepage: package_link(package, "homepage"@),
        npm: package_link(package, "npm"@),
        keywords: package_keywords(package),
    }
}

/// Reads the keywords of a package.
fn keywords_of(package: &serde_json::Value) -> (r: Vec<String>)
    ensures
        r.deep_view() == package_keywords(*package),
{
    let mut out: Vec<String> = Vec::new();
    assert(out.deep_view() =~= Seq::<Seq<char>>::empty());
    match json::get(package, "keywords") {
        Some(list) => match json::as_items(list) {
            Some(items) => {
                let mut at: usize = 0;
                assert(texts_among(items@.take(0)) =~= Seq::<Seq<char>>::empty());
                while at < items.len()
                    invariant
                        at <= items.len(),
                        out.deep_view() == texts_among(items@.take(at as int)),
                    decreases items.len() - at,
                {
                    let ghost before = out.deep_view();
                    assert(items@.take(at + 1).drop_last() =~= items@.take(at as int));
                    assert(items@.take(at + 1).last() == items@[at as int]);
                    match json::as_text(&items[at]) {
                        Some(content) => {
                            let ghost chars = content@;
                            out.push(content);
                            assert(out.deep_view() =~= before.push(chars));
                        },
                        None => {},
                    }
                    at += 1;
                }
                assert(items@.take(at as int) =~= items@);
            },
            None => {},
        },
        None => {},
    }
    out
}

/// Reads a link of a package.
fn link_of(package: &serde_json::Value, key: &str) -> (r: Option<String>)
    ensures
        text::optional(r) == package_link(*package, key@),
{
    match json::get(package, "links") {
        Some(links) => json::text_at(links, key),
        None => None,
    }
}

/// Reads a package.
fn read_package(package: &serde_json::Value) -> (r: FoundPackage)
    ensures
        r@ == package_view(*package),
{
    let r = FoundPackage {
        name: json::text_at(package, "name"),
        version: json::text_at(package, "version"),
        description: json::text_at(package, "description"),
        homepage: link_of(package, "homepage"),
        npm: link_of(package, "npm"),
        keywords: keywords_of(package),
    };
    assert(r@ =~= package_view(*package));
    r
}

/// The packages in npm's answer: none where that is no array.
pub open spec fn package_views(answer: serde_json::Value) -> Seq<FoundView> {
    match json::json_items(answer) {
        Some(items) => items.map_values(|package: serde_json::Value| package_view(package)),
        None => Seq::empty(),
    }
}

/// What a search comes to, given whether npm worked and what it printed.
pub open spec fn is_search_outcome(
    r: Result<Vec<PluginSearchResult>, String>,
    success: bool,
    output: Seq<char>,
) -> bool {
    if !success {
        r is Err && r->Err_0@ == output
    } else {
        match json::json_parse(output) {
            Ok(answer) => r is Ok && result_views(r->Ok_0@) == shown_results(package_views(answer)),
            Err(error) => r is Err && r->Err_0@ == "npm 搜索结果无效："@ + json::error_chars(error),
        }
    }
}

/// Finds the plugins in what npm printed; where npm failed, what it printed is the
/// complaint.
pub fn search_plugins(result: &OperationResult) -> (r: Result<Vec<PluginSearchResult>, String>)
    ensures
        is_search_outcome(r, result.success, result.output@),
{
    if !result.success {
        return Err(result.output.clone());
    }
    let answer: serde_json::Value = match json::parse(result.output.as_str()) {
        Ok(answer) => answer,
        Err(error) => {
            let reason: String = json::error_text(&error);
            let mut message: String = "npm 搜索结果无效：".to_string();
            message.append(reason.as_str());
            return Err(message);
        },
    };
    let mut found: Vec<FoundPackage> = Vec::new();
    assert(found_views(found@) =~= Seq::<FoundView>::empty());
    match json::as_items(&answer) {
        Some(items) => {
            let ghost all = package_views(answer);
            let mut at: usize = 0;
            while at < items.len()
                invariant
                    at <= items.len(),
                    all == items@.map_values(|package: serde_json::Value| package_view(package)),
                    found_views(found@) == all.take(at as int),
                decreases items.len() - at,
            {
                let ghost before = found_views(found@);
                found.push(read_package(&items[at]));
                assert(found_views(found@) =~= before.push(package_view(items@[at as int])));
                assert(found_views(found@) =~= all.take(at + 1));
                at += 1;
            }
            assert(all.take(at as int) =~= all);
        },
        None => {},
    }
    Ok(search_results(&found))
}

/// A plugin comes or goes: the steps of the change, and the command that makes it or why
/// there is none. The other steps are taken either way.
pub struct PluginAction {
    pub steps: Vec<MaintenanceStep>,
    pub invocation: Result<Invocation, String>,
}

/// What becomes of a request for a change of the plugins.
pub enum PluginPlan {
    /// The service is being started or the installation changed: the request waits for its
    /// turn and is planned then.
    Wait,
    /// The change is made.
    Act { action: PluginAction },
}

/// The arguments with which dsh changes the plugins of the web profile.
pub open spec fn plugin_args(verb: Seq<char>, spec: Seq<char>) -> Seq<Seq<char>> {
    seq!["plugin"@, "--profile"@, "web"@, verb, spec]
}

/// What is shown while the plugins are being changed.
pub fn plugin_label() -> (r: String)
    ensures
        r@ == "有插件或更新操作正在进行"@,
{
    "有插件或更新操作正在进行".to_string()
}

/// The outcome of planning a change of the plugins.
pub open spec fn is_plugin_plan<C>(
    r: Result<PluginPlan, String>,
    config: LauncherConfig,
    idle: bool,
    runtime: RuntimeState<C>,
    verb: Seq<char>,
    plugin: Seq<char>,
    resolved: Result<String, String>,
    platform: Platform,
) -> bool {
    if spec_complaint(plugin) is Some {
        r is Err && r->Err_0@ == spec_complaint(plugin)->0
    } else if !service::let_through(Request::Plugin, idle) {
        r is Ok && r->Ok_0 is Wait
    } else {
        &&& r is Ok
        &&& r->Ok_0 matches PluginPlan::Act { action } && action.steps@ == service::change_steps(
            runtime@,
        ) && exec::invocation_or(
            action.invocation,
            exec::invocation_outcome(config, plugin_args(verb, plugin), resolved, platform),
            config,
            exec::PLUGIN_ACTION_TIMEOUT,
            platform,
        )
    }
}

/// Plans a change of the plugins of the web profile. `idle` tells whether nobody else starts
/// the service or changes the installation; `resolved` is what the program of the settings
/// resolves to, and matters on Windows only.
pub fn run_plugin_action<C>(
    config: &LauncherConfig,
    idle: bool,
    runtime: &RuntimeState<C>,
    verb: &str,
    plugin: &str,
    resolved: Result<String, String>,
    platform: Platform,
) -> (r: Result<PluginPlan, String>)
    ensures
        is_plugin_plan(r, *config, idle, *runtime, verb@, plugin@, resolved, platform),
{
    match check_plugin_spec(plugin) {
        Ok(_) => {},
        Err(message) => {
            return Err(message);
        },
    }
    if !idle {
        return Ok(PluginPlan::Wait);
    }
    let mut args: Vec<String> = Vec::new();
    args.push("plugin".to_string());
    args.push("--profile".to_string());
    args.push("web".to_string());
    args.push(verb.to_owned());
    args.push(plugin.to_owned());
    assert(args.deep_view() =~= plugin_args(verb@, plugin@));
    let invocation: Result<Invocation, String> = exec::run_dsh_invocation(
        config,
        &args,
        exec::PLUGIN_ACTION_TIMEOUT,
        resolved,
        platform,
    );
    let action: PluginAction = PluginAction {
        steps: service::maintenance_steps(runtime),
        invocation,
    };
    Ok(PluginPlan::Act { action })
}

/// Plans the installation of a plugin.
pub fn install_plugin<C>(
    config: &LauncherConfig,
    idle: bool,
    runtime: &RuntimeState<C>,
    plugin: &str,
    resolved: Result<String, String>,
    platform: Platform,
) -> (r: Result<PluginPlan, String>)
    ensures
        is_plugin_plan(r, *config, idle, *runtime, "add"@, plugin@, resolved, platform),
{
    run_plugin_action(config, idle, runtime, "add", plugin, resolved, platform)
}

/// Plans the removal of a plugin.
pub fn remove_plugin<C>(
    config: &LauncherConfig,
    idle: bool,
    runtime: &RuntimeState<C>,
    plugin: &str,
    resolved: Result<String, String>,
    platform: Platform,
) -> (r: Result<PluginPlan, String>)
    ensures
        is_plugin_plan(r, *config, idle, *runtime, "remove"@, plugin@, resolved, platform),
{
    run_plugin_action(config, idle, runtime, "remove", plugin, resolved, platform)
}

/// A keyword speaks of dsh exactly where `dsh` or `deepseek-harness` occurs in it, in small
/// letters or capitals.
pub proof fn law_which_keywords_speak_of_dsh(before: Seq<char>, after: Seq<char>, keyword: Seq<char>)
    ensures
        dsh_keyword(before + "dsh"@ + after),
        dsh_keyword(before + "DSH"@ + after),
        dsh_keyword(before + "deepseek-harness"@ + after),
        dsh_keyword(keyword) <==> text::occurs(text::lowered(keyword), "dsh"@) || text::occurs(
            text::lowered(keyword),
            "deepseek-harness"@,
        ),
{
    reveal_strlit("dsh");
    reveal_strlit("DSH");
    reveal_strlit("dsh-plugin");
    reveal_strlit("deepseek-harness");
    let left = text::lowered(before);
    let right = text::lowered(after);
    assert(text::lowered(before + "dsh"@ + after) =~= left + "dsh"@ + right);
    assert(text::lowered(before + "DSH"@ + after) =~= left + "dsh"@ + right);
    assert(text::lowered(before + "deepseek-harness"@ + after) =~= left + "deepseek-harness"@ + right);
    text::law_what_occurs_is_a_part(left, "dsh"@, right, left);
    text::law_what_occurs_is_a_part(left, "deepseek-harness"@, right, left);
    let small = text::lowered(keyword);
    if text::occurs(small, "dsh-plugin"@) {
        let at = choose|at: int| #[trigger] text::occurs_at(small, "dsh-plugin"@, at);
        assert(small.subrange(at, at + 3) =~= small.subrange(at, at + 10).subrange(0, 3));
        assert("dsh-plugin"@.subrange(0, 3) =~= "dsh"@);
        assert(text::occurs_at(small, "dsh"@, at));
    }
}

/// Any keyword that speaks of dsh is enough, wherever it stands in the list; so is a name of the
/// family of dsh. Nothing else is.
pub proof fn law_any_keyword_is_enough(
    name: Seq<char>,
    keywords: Seq<Seq<char>>,
    others: Seq<Seq<char>>,
    at: int,
    rest: Seq<char>,
)
    ensures
        0 <= at < keywords.len() && dsh_keyword(keywords[at]) ==> about_dsh(name, keywords),
        about_dsh("@deepseek-ai/dsh-"@ + rest, keywords),
        (forall|i: int| 0 <= i < keywords.len() ==> !dsh_keyword(#[trigger] keywords[i]))
            && !"@deepseek-ai/dsh-"@.is_prefix_of(name) ==> !about_dsh(name, keywords),
        (forall|keyword: Seq<char>| #[trigger]
            keywords.contains(keyword) <==> others.contains(keyword)) ==> about_dsh(name, keywords)
            == about_dsh(name, others),
{
    let prefix = "@deepseek-ai/dsh-"@;
    assert((prefix + rest).subrange(0, prefix.len() as int) =~= prefix);
    if forall|keyword: Seq<char>| #[trigger] keywords.contains(keyword) <==> others.contains(keyword) {
        if exists|i: int| 0 <= i < keywords.len() && dsh_keyword(#[trigger] keywords[i]) {
            let i = choose|i: int| 0 <= i < keywords.len() && dsh_keyword(#[trigger] keywords[i]);
            assert(keywords.contains(keywords[i]));
            let j = choose|j: int| 0 <= j < others.len() && others[j] == keywords[i];
            assert(dsh_keyword(others[j]));
        }
        if exists|i: int| 0 <= i < others.len() && dsh_keyword(#[trigger] others[i]) {
            let i = choose|i: int| 0 <= i < others.len() && dsh_keyword(#[trigger] others[i]);
            assert(others.contains(others[i]));
            assert(keywords.contains(others[i]));
            let j = choose|j: int| 0 <= j < keywords.len() && keywords[j] == others[i];
            assert(dsh_keyword(keywords[j]));
        }
    }
}

/// A package is shown as it is: its name, its version, what it is for, its links and all its
/// keywords. A version and a description that are missing are replaced by words.
pub proof fn law_a_package_is_shown_as_it_is(found: FoundView)
    ensures
        shown_result(found).keywords == found.keywords,
        found.name is Some ==> shown_result(found).name == found.name->0,
        found.name is None ==> shown_result(found).name.len() == 0,
        found.version is Some ==> shown_result(found).version == found.version->0,
        found.version is None ==> shown_result(found).version == "未知"@,
        found.description is Some ==> shown_result(found).description == found.description->0,
        found.description is None ==> shown_result(found).description == "无描述"@,
        found.homepage is Some ==> shown_result(found).homepage == found.homepage->0,
        found.homepage is None ==> shown_result(found).homepage.len() == 0,
        found.npm is Some ==> shown_result(found).npm_url == found.npm->0,
        found.npm is None ==> shown_result(found).npm_url.len() == 0,
{
}

/// Nothing that has to do with dsh is left out: where a keyword of a package, whichever, speaks
/// of dsh, or its name begins with that of the family, the package is among the results.
pub proof fn law_nothing_about_dsh_is_left_out(found: Seq<FoundView>, at: int, keyword: int)
    requires
        0 <= at < found.len(),
        (0 <= keyword < found[at].keywords.len() && (text::occurs(
            text::lowered(found[at].keywords[keyword]),
            "dsh"@,
        ) || text::occurs(text::lowered(found[at].keywords[keyword]), "deepseek-harness"@))) || (
        found[at].name is Some && "@deepseek-ai/dsh-"@.is_prefix_of(found[at].name->0)),
    ensures
        shown_results(found).contains(shown_result(found[at])),
    decreases found.len(),
{
    let before = found.drop_last();
    if at < before.len() {
        assert(before[at] == found[at]);
        law_nothing_about_dsh_is_left_out(before, at, keyword);
        let i = choose|i: int|
            0 <= i < shown_results(before).len() && shown_results(before)[i] == shown_result(found[at]);
        assert(shown_results(found)[i] == shown_result(found[at]));
    } else {
        if 0 <= keyword < found[at].keywords.len() {
            assert(dsh_keyword(found[at].keywords[keyword]) || "@deepseek-ai/dsh-"@.is_prefix_of(
                found_name(found[at]),
            ));
        }
        let all = shown_results(found);
        assert(all[all.len() - 1] == shown_result(found[at]));
    }
}

/// Every result is a package that was found and has to do with dsh, and the results come in the
/// order of the packages: one more package adds its own result at the end, or nothing.
pub proof fn law_results_are_packages_in_order(found: Seq<FoundView>, package: FoundView)
    ensures
        shown_results(Seq::<FoundView>::empty()).len() == 0,
        ({
            let speaks = exists|i: int|
                0 <= i < package.keywords.len() && (text::occurs(
                    text::lowered(#[trigger] package.keywords[i]),
                    "dsh"@,
                ) || text::occurs(text::lowered(package.keywords[i]), "deepseek-harness"@));
            let family = package.name is Some && "@deepseek-ai/dsh-"@.is_prefix_of(package.name->0);
            shown_results(found.push(package)) == (if speaks || family {
                shown_results(found).push(shown_result(package))
            } else {
                shown_results(found)
            })
        }),
{
    reveal_strlit("@deepseek-ai/dsh-");
    let prefix = "@deepseek-ai/dsh-"@;
    assert(!prefix.is_prefix_of(Seq::<char>::empty()));
    assert(found.push(package).drop_last() =~= found);
    assert forall|i: int| 0 <= i < package.keywords.len() implies (dsh_keyword(
        #[trigger] package.keywords[i],
    ) <==> text::occurs(text::lowered(package.keywords[i]), "dsh"@) || text::occurs(
        text::lowered(package.keywords[i]),
        "deepseek-harness"@,
    )) by {
        law_which_keywords_speak_of_dsh(Seq::empty(), Seq::empty(), package.keywords[i]);
    }
}

/// npm is asked for plugins of dsh: by what the user looks for and the word for such plugins,
/// or by the word alone.
pub proof fn law_npm_is_asked_for_plugins(
    query: Seq<char>,
    resolved: Result<String, String>,
    platform: Platform,
)
    ensures
        (forall|i: int| 0 <= i < query.len() ==> text::is_white(#[trigger] query[i])) ==> search_words(
            query,
        ) == "dsh-plugin"@,
        !(forall|i: int| 0 <= i < query.len() ==> text::is_white(#[trigger] query[i]))
            ==> search_words(query) == text::stripped(query) + " dsh-plugin"@,
        search_query(query, resolved, platform).args == seq![
            "search"@,
            "--json"@,
            "--searchlimit"@,
            "30"@,
            search_words(query),
        ],
        platform != Platform::Windows ==> search_query(query, resolved, platform).program == "npm"@,
{
    text::law_blank_texts_hold_white_space_only(query);
    assert(search_query(query, resolved, platform).args =~= seq![
        "search"@,
        "--json"@,
        "--searchlimit"@,
        "30"@,
        search_words(query),
    ]);
}

/// The keywords of a package are the texts in its list, all of them and in their order; what is
/// no text is passed over.
pub proof fn law_keywords_are_the_texts_of_the_list(
    values: Seq<serde_json::Value>,
    value: serde_json::Value,
)
    ensures
        texts_among(Seq::<serde_json::Value>::empty()).len() == 0,
        json::json_text(value) is Some ==> texts_among(values.push(value)) == texts_among(values).push(
            json::json_text(value)->0,
        ),
        json::json_text(value) is None ==> texts_among(values.push(value)) == texts_among(values),
{
    assert(values.push(value).drop_last() =~= values);
}

/// Each part of a package is read from the key of its name.
pub proof fn law_a_package_is_read_by_its_keys(
    package: serde_json::Value,
    fields: Seq<(Seq<char>, serde_json::Value)>,
    at: int,
    links: Seq<(Seq<char>, serde_json::Value)>,
    link: int,
)
    requires
        json::json_fields(package) == Some(fields),
        forall|i: int, j: int|
            0 <= i < j < fields.len() ==> #[trigger] fields[i].0 != #[trigger] fields[j].0,
        forall|i: int, j: int|
            0 <= i < j < links.len() ==> #[trigger] links[i].0 != #[trigger] links[j].0,
        0 <= at < fields.len(),
        0 <= link < links.len(),
    ensures
        fields[at].0 == "name"@ ==> package_view(package).name == json::json_text(fields[at].1),
        fields[at].0 == "version"@ ==> package_view(package).version == json::json_text(fields[at].1),
        fields[at].0 == "description"@ ==> package_view(package).description == json::json_text(
            fields[at].1,
        ),
        fields[at].0 == "keywords"@ && json::json_items(fields[at].1) is Some ==> package_view(
            package,
        ).keywords == texts_among(json::json_items(fields[at].1)->0),
        fields[at].0 == "links"@ && json::json_fields(fields[at].1) == Some(links) ==> (links[link].0
            == "homepage"@ ==> package_view(package).homepage == json::json_text(links[link].1)) && (
        links[link].0 == "npm"@ ==> package_view(package).npm == json::json_text(links[link].1)),
{
    json::law_the_text_of_a_key_is_read(package, fields, at, fields[at].0);
    json::law_a_key_is_found(fields, at, fields[at].0);
    json::law_a_key_is_found(links, link, links[link].0);
}

/// The packages in npm's answer are read one by one, and an answer that is no list has none.
pub proof fn law_every_package_of_the_answer_is_read(answer: serde_json::Value, at: int)
    ensures
        json::json_items(answer) is None ==> package_views(answer).len() == 0,
        json::json_items(answer) is Some ==> package_views(answer).len() == json::json_items(
            answer,
        )->0.len(),
        json::json_items(answer) is Some && 0 <= at < package_views(answer).len() ==> package_views(
            answer,
        )[at] == package_view(json::json_items(answer)->0[at]),
{
}

/// The plugins of the profile are its dependencies, each by its key and with the version that is
/// written there.
pub proof fn law_dependencies_are_read_by_their_names(
    manifest: serde_json::Value,
    fields: Seq<(Seq<char>, serde_json::Value)>,
    at: int,
    dependencies: Seq<(Seq<char>, serde_json::Value)>,
)
    requires
        json::json_fields(manifest) == Some(fields),
        forall|i: int, j: int|
            0 <= i < j < fields.len() ==> #[trigger] fields[i].0 != #[trigger] fields[j].0,
        0 <= at < fields.len(),
        fields[at].0 == "dependencies"@,
        json::json_fields(fields[at].1) == Some(dependencies),
    ensures
        listed_dependencies(manifest).len() == dependencies.len(),
        forall|i: int|
            0 <= i < dependencies.len() ==> #[trigger] listed_dependencies(manifest)[i] == (
                dependencies[i].0,
                json::json_text(dependencies[i].1),
            ),
{
    json::law_a_key_is_found(fields, at, fields[at].0);
}

/// A package is a bundle exactly where its manifest has the key `bundle` in its section on dsh,
/// whatever it says there.
pub proof fn law_a_bundle_names_itself(
    manifest: serde_json::Value,
    fields: Seq<(Seq<char>, serde_json::Value)>,
    at: int,
    section: Seq<(Seq<char>, serde_json::Value)>,
)
    requires
        json::json_fields(manifest) == Some(fields),
        forall|i: int, j: int|
            0 <= i < j < fields.len() ==> #[trigger] fields[i].0 != #[trigger] fields[j].0,
        0 <= at < fields.len(),
        fields[at].0 == "dsh"@,
        json::json_fields(fields[at].1) == Some(section),
    ensures
        names_bundle(manifest) <==> exists|i: int|
            0 <= i < section.len() && (#[trigger] section[i]).0 == "bundle"@,
{
    json::law_a_key_is_found(fields, at, fields[at].0);
}

/// A specifier can go into a command exactly where it has 1 to 240 bytes, all of them ASCII
/// letters, digits, spaces and the signs that specifiers are made of.
pub proof fn law_which_specifiers_are_safe(value: Seq<char>)
    ensures
        safe_plugin_spec(value) <==> 0 < value.len() && vstd::utf8::encode_utf8(value).len() <= 240
            && forall|i: int|
            0 <= i < value.len() ==> ('a' <= #[trigger] value[i] <= 'z') || ('A' <= value[i] <= 'Z') || (
            '0' <= value[i] <= '9') || value[i] == '@' || value[i] == '/' || value[i] == '.'
                || value[i] == '_' || value[i] == '-' || value[i] == ':' || value[i] == '#' || value[i]
                == ' ' || value[i] == '+' || value[i] == '~' || value[i] == '=',
{
    reveal_strlit("@/._-:# +~=");
    let others = "@/._-:# +~="@;
    assert(others[0] == '@' && others[1] == '/' && others[2] == '.' && others[3] == '_' && others[4]
        == '-' && others[5] == ':' && others[6] == '#' && others[7] == ' ' && others[8] == '+'
        && others[9] == '~' && others[10] == '=');
    assert forall|i: int| 0 <= i < value.len() implies (others.contains(#[trigger] value[i]) <==> (
    value[i] == '@' || value[i] == '/' || value[i] == '.' || value[i] == '_' || value[i] == '-'
        || value[i] == ':' || value[i] == '#' || value[i] == ' ' || value[i] == '+' || value[i] == '~'
        || value[i] == '=')) by {}
}

/// dsh is told to change the web profile: the verb and the specifier come last, as they are.
pub proof fn law_dsh_is_told_what_to_change(verb: Seq<char>, plugin: Seq<char>)
    ensures
        plugin_args(verb, plugin).len() == 5,
        plugin_args(verb, plugin)[0] == "plugin"@,
        plugin_args(verb, plugin)[1] == "--profile"@,
        plugin_args(verb, plugin)[2] == "web"@,
        plugin_args(verb, plugin)[3] == verb,
        plugin_args(verb, plugin)[4] == plugin,
{
}

/// A specifier is refused exactly where it is not safe, whatever else is under way; a safe one waits
/// while the installation is being changed.
pub proof fn law_which_plugins_are_changed<C>(
    r: Result<PluginPlan, String>,
    config: LauncherConfig,
    idle: bool,
    runtime: RuntimeState<C>,
    verb: Seq<char>,
    plugin: Seq<char>,
    resolved: Result<String, String>,
    platform: Platform,
)
    requires
        is_plugin_plan(r, config, idle, runtime, verb, plugin, resolved, platform),
    ensures
        r is Err <==> !safe_plugin_spec(plugin),
        r is Err ==> r->Err_0@ == "插件标识包含不支持的字符"@,
        r is Ok ==> (r->Ok_0 is Act <==> idle),
        r is Ok && r->Ok_0 is Act ==> ({
            let action = r->Ok_0->action;
            &&& action.steps@ == service::change_steps(runtime@)
            &&& action.invocation is Err <==> platform == Platform::Windows && resolved is Err
            &&& action.invocation is Ok ==> action.invocation->Ok_0@.timeout == 300
            &&& action.invocation is Ok ==> action.invocation->Ok_0@.command
                == exec::invocation_outcome(config, plugin_args(verb, plugin), resolved, platform)->Ok_0.prepared(
                config,
            )
        }),
{
}

/// A plugin is listed under its name with the version that is asked for; any version will do where
/// none is.
pub proof fn law_a_plugin_is_listed_as_it_is(
    plugin: InstalledPlugin,
    name: Seq<char>,
    version: Seq<char>,
    bundle: bool,
)
    ensures
        shown_plugin(plugin, (name, Some(version)), bundle) <==> plugin.name@ == name
            && plugin.version@ == version && plugin.bundle == bundle,
        shown_plugin(plugin, (name, None), bundle) <==> plugin.name@ == name && plugin.version@
            == "*"@ && plugin.bundle == bundle,
{
}

/// What npm complains of is told as it is, and what it prints is looked through only where it
/// worked.
pub proof fn law_what_a_search_comes_to(
    r: Result<Vec<PluginSearchResult>, String>,
    success: bool,
    output: Seq<char>,
)
    requires
        is_search_outcome(r, success, output),
    ensures
        r is Ok <==> success && json::json_parse(output) is Ok,
        !success ==> r->Err_0@ == output,
        success && r is Err ==> r->Err_0@ == "npm 搜索结果无效："@ + json::error_chars(
            json::json_parse(output)->Err_0,
        ),
        r is Ok ==> result_views(r->Ok_0@) == shown_results(
            package_views(json::json_parse(output)->Ok_0),
        ),
{
}

/// The dependencies of the web profile are known exactly where its manifest can be read.
pub proof fn law_when_the_dependencies_are_known(
    r: Result<Vec<Dependency>, String>,
    manifest: Seq<char>,
)
    requires
        are_dependencies(r, manifest),
    ensures
        r is Ok <==> json::json_parse(manifest) is Ok,
        r is Ok ==> dependency_views(r->Ok_0@) == listed_dependencies(
            json::json_parse(manifest)->Ok_0,
        ),
        r is Err ==> r->Err_0@ == "profile package.json 无效："@ + json::error_chars(
            json::json_parse(manifest)->Err_0,
        ),
{
}

/// Only a manifest that can be read makes a package a bundle.
pub proof fn law_when_a_package_is_a_bundle(document: &str)
    ensures
        !bundled(None),
        bundled(Some(document)) <==> json::json_parse(document@) is Ok && names_bundle(
            json::json_parse(document@)->Ok_0,
        ),
{
}

/// Nothing is made up of a package: what its manifest has no key for is missing, and it has no
/// keywords where they are in no list.
pub proof fn law_what_a_package_lacks_is_missing(
    package: serde_json::Value,
    fields: Seq<(Seq<char>, serde_json::Value)>,
    links: Seq<(Seq<char>, serde_json::Value)>,
    at: int,
)
    requires
        json::json_fields(package) == Some(fields),
        forall|i: int, j: int|
            0 <= i < j < fields.len() ==> #[trigger] fields[i].0 != #[trigger] fields[j].0,
        forall|i: int, j: int|
            0 <= i < j < links.len() ==> #[trigger] links[i].0 != #[trigger] links[j].0,
        0 <= at < fields.len(),
    ensures
        lacks(fields, "name"@) ==> package_view(package).name is None,
        lacks(fields, "version"@) ==> package_view(package).version is None,
        lacks(fields, "description"@) ==> package_view(package).description is None,
        lacks(fields, "keywords"@) ==> package_view(package).keywords.len() == 0,
        lacks(fields, "links"@) ==> package_view(package).homepage is None && package_view(package).npm is None,
        fields[at].0 == "keywords"@ && json::json_items(fields[at].1) is None ==> package_view(
            package,
        ).keywords.len() == 0,
        fields[at].0 == "links"@ && json::json_fields(fields[at].1) == Some(links) ==> (lacks(
            links,
            "homepage"@,
        ) ==> package_view(package).homepage is None) && (lacks(links, "npm"@) ==> package_view(
            package,
        ).npm is None),
{
    json::law_a_key_is_found(fields, at, "name"@);
    json::law_a_key_is_found(fields, at, "version"@);
    json::law_a_key_is_found(fields, at, "description"@);
    json::law_a_key_is_found(fields, at, "keywords"@);
    json::law_a_key_is_found(fields, at, "links"@);
    json::law_a_key_is_found(links, 0, "homepage"@);
    json::law_a_key_is_found(links, 0, "npm"@);
}

/// The keys of an object do not have this one among them.
pub open spec fn lacks(fields: Seq<(Seq<char>, serde_json::Value)>, key: Seq<char>) -> bool {
    forall|i: int| 0 <= i < fields.len() ==> (#[trigger] fields[i]).0 != key
}

/// A manifest without dependencies lists none, and one without a section on dsh is no bundle's.
pub proof fn law_what_a_manifest_lacks_is_missing(
    manifest: serde_json::Value,
    fields: Seq<(Seq<char>, serde_json::Value)>,
    at: int,
)
    requires
        json::json_fields(manifest) is Some ==> json::json_fields(manifest) == Some(fields),
        forall|i: int, j: int|
            0 <= i < j < fields.len() ==> #[trigger] fields[i].0 != #[trigger] fields[j].0,
    ensures
        json::json_fields(manifest) is None ==> listed_dependencies(manifest).len() == 0
            && !names_bundle(manifest),
        json::json_fields(manifest) is Some && lacks(fields, "dependencies"@) ==> listed_dependencies(
            manifest,
        ).len() == 0,
        json::json_fields(manifest) is Some && lacks(fields, "dsh"@) ==> !names_bundle(manifest),
        json::json_fields(manifest) is Some && 0 <= at < fields.len() && json::json_fields(
            fields[at].1,
        ) is None ==> (fields[at].0 == "dependencies"@ ==> listed_dependencies(manifest).len() == 0)
            && (fields[at].0 == "dsh"@ ==> !names_bundle(manifest)),
{
    json::law_a_key_is_found(fields, at, "dependencies"@);
    json::law_a_key_is_found(fields, at, "dsh"@);
}

} // verus!
