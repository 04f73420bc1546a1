//! The catalogue of plugins: what it says, and how long it is kept.

use vstd::prelude::*;

use crate::text;
use crate::util;

verus! {

/// Seconds for which the catalogue is kept.
pub const MARKET_TTL_SECS: u64 = 600;

/// The owner of a repository.
#[derive(Clone, Debug)]
pub struct MarketOwnerRaw {
    pub avatar_url: String,
}

/// How a repository was checked.
#[derive(Clone, Debug)]
pub struct MarketValidationRaw {
    pub overall: String,
}

/// A repository, as the store lists it.
#[derive(Clone, Debug)]
pub struct MarketRepoRaw {
    pub name: String,
    pub full_name: String,
    pub description: Option<String>,
    pub url: String,
    pub homepage: Option<String>,
    pub owner: Option<MarketOwnerRaw>,
    pub topics: Vec<String>,
    pub language: Option<String>,
    pub stars: u64,
    pub pushed_at: Option<String>,
    pub archived: bool,
    pub project_type: Option<String>,
    pub category: Option<String>,
    pub categories: Vec<String>,
    pub validation: Option<MarketValidationRaw>,
}

/// What the store answers.
#[derive(Clone, Debug)]
pub struct MarketApiResponse {
    pub schema_version: u64,
    pub repositories: Vec<MarketRepoRaw>,
}

/// A plugin, as the windows show it.
#[derive(Clone, Debug)]
pub struct MarketPlugin {
    pub name: String,
    pub full_name: String,
    pub spec: String,
    pub description: String,
    pub url: String,
    pub homepage: String,
    pub avatar_url: String,
    pub topics: Vec<String>,
    pub language: String,
    pub stars: u64,
    pub pushed_at: String,
    pub archived: bool,
    pub project_type: String,
    pub category: String,
    pub verified: bool,
}

/// The plugins, with the time at which they were fetched.
#[derive(Clone, Debug)]
pub struct MarketCatalog {
    pub plugins: Vec<MarketPlugin>,
    pub fetched_at: u64,
}

/// The content of a `MarketPlugin`.
#[verifier::ext_equal]
pub struct PluginView {
    pub name: Seq<char>,
    pub full_name: Seq<char>,
    pub spec: Seq<char>,
    pub description: Seq<char>,
    pub url: Seq<char>,
    pub homepage: Seq<char>,
    pub avatar_url: Seq<char>,
    pub topics: Seq<Seq<char>>,
    pub language: Seq<char>,
    pub stars: u64,
    pub pushed_at: Seq<char>,
    pub archived: bool,
    pub project_type: Seq<char>,
    pub category: Seq<char>,
    pub verified: bool,
}

impl View for MarketPlugin {
    type V = PluginView;

    open spec fn view(&self) -> PluginView {
        PluginView {
            name: self.name@,
            full_name: self.full_name@,
            spec: self.spec@,
            description: self.description@,
            url: self.url@,
            homepage: self.homepage@,
            avatar_url: self.avatar_url@,
            topics: self.topics.deep_view(),
            language: self.language@,
            stars: self.stars,
            pushed_at: self.pushed_at@,
            archived: self.archived,
            project_type: self.project_type@,
            category: self.category@,
            verified: self.verified,
        }
    }
}

/// The content of a `MarketCatalog`.
#[verifier::ext_equal]
pub struct CatalogView {
    pub plugins: Seq<PluginView>,
    pub fetched_at: u64,
}

impl View for MarketCatalog {
    type V = CatalogView;

    open spec fn view(&self) -> CatalogView {
        CatalogView {
            plugins: self.plugins@.map_values(|plugin: MarketPlugin| plugin@),
            fetched_at: self.fetched_at,
        }
    }
}

/// The category of a repository: the one that it names, or the first of its list.
pub open spec fn category_of(repo: MarketRepoRaw) -> Seq<char> {
    match repo.category {
        Some(value) => value@,
        None => if repo.categories@.len() > 0 {
            repo.categories@[0]@
        } else {
            "other"@
        },
    }
}

/// The plugin that a repository is shown as. What is missing reads as empty, but for the
/// kind of project and its category.
pub open spec fn plugin_of(repo: MarketRepoRaw) -> PluginView {
    let nothing = Seq::<char>::empty();
    PluginView {
        name: repo.name@,
        full_name: repo.full_name@,
        spec: "github:"@ + repo.full_name@,
        description: text::text_or(text::optional(repo.description), nothing),
        url: repo.url@,
        homepage: text::text_or(text::optional(repo.homepage), nothing),
        avatar_url: match repo.owner {
            Some(owner) => owner.avatar_url@,
            None => nothing,
        },
        topics: repo.topics.deep_view(),
        language: text::text_or(text::optional(repo.language), nothing),
        stars: repo.stars,
        pushed_at: text::text_or(text::optional(repo.pushed_at), nothing),
        archived: repo.archived,
        project_type: text::text_or(text::optional(repo.project_type), "unknown"@),
        category: category_of(repo),
        verified: match repo.validation {
            Some(validation) => validation.overall@ == "verified"@,
            None => false,
        },
    }
}

/// The complaint about an answer of another version.
pub open spec fn schema_complaint(version: u64) -> Seq<char> {
    "插件目录 API 版本不兼容：schemaVersion="@ + text::decimal(version as nat)
}

/// The catalogue that an answer of the store comes to, at a time in seconds.
pub open spec fn catalog_outcome(response: MarketApiResponse, seconds: u64) -> Result<
    CatalogView,
    Seq<char>,
> {
    if response.schema_version != 1 {
        Err(schema_complaint(response.schema_version))
    } else {
        Ok(
            CatalogView {
                plugins: response.repositories@.map_values(|repo: MarketRepoRaw| plugin_of(repo)),
                fetched_at: seconds,
            },
        )
    }
}

/// A catalogue, or the complaint in its place.
pub open spec fn catalog_or(
    r: Result<MarketCatalog, String>,
    expected: Result<CatalogView, Seq<char>>,
) -> bool {
    match expected {
        Ok(catalog) => r is Ok && r->Ok_0@ == catalog,
        Err(message) => r is Err && r->Err_0@ == message,
    }
}

/// Copies an optional string, or another text where there is none.
fn filled(content: &Option<String>, other: &str) -> (r: String)
    ensures
        r@ == text::text_or(text::optional(*content), other@),
{
    match content {
        Some(value) => value.clone(),
        None => other.to_owned(),
    }
}

/// Makes the plugin that a repository is shown as.
pub fn plugin_from(repo: &MarketRepoRaw) -> (r: MarketPlugin)
    ensures
        r@ == plugin_of(*repo),
{
    proof {
        reveal_strlit("");
        assert(""@ =~= Seq::<char>::empty());
    }
    let mut source: String = "github:".to_string();
    source.append(repo.full_name.as_str());
    let avatar_url: String = match &repo.owner {
        Some(owner) => owner.avatar_url.clone(),
        None => String::new(),
    };
    let category: String = match &repo.category {
        Some(value) => value.clone(),
        None => if repo.categories.len() > 0 {
            repo.categories[0].clone()
        } else {
            "other".to_string()
        },
    };
    let verified: bool = match &repo.validation {
        Some(validation) => text::same_text(validation.overall.as_str(), "verified"),
        None => false,
    };
    let r = MarketPlugin {
        name: repo.name.clone(),
        full_name: repo.full_name.clone(),
        spec: source,
        description: filled(&repo.description, ""),
        url: repo.url.clone(),
        homepage: filled(&repo.homepage, ""),
        avatar_url,
        topics: text::clone_texts(&repo.topics),
        language: filled(&repo.language, ""),
        stars: repo.stars,
        pushed_at: filled(&repo.pushed_at, ""),
        archived: repo.archived,
        project_type: filled(&repo.project_type, "unknown"),
        category,
        verified,
    };
    assert(r@ =~= plugin_of(*repo));
    r
}

/// Makes the catalogue of an answer, at a time in seconds.
pub fn catalog_at(response: &MarketApiResponse, seconds: u64) -> (r: Result<MarketCatalog, String>)
    ensures
        catalog_or(r, catalog_outcome(*response, seconds)),
{
    if response.schema_version != 1 {
        let mut message: String = "插件目录 API 版本不兼容：schemaVersion=".to_string();
        let digits: String = text::decimal_text(response.schema_version);
        message.append(digits.as_str());
        return Err(message);
    }
    let ghost all = response.repositories@.map_values(|repo: MarketRepoRaw| plugin_of(repo));
    let mut plugins: Vec<MarketPlugin> = Vec::new();
    let mut at: usize = 0;
    while at < response.repositories.len()
        invariant
            at <= response.repositories.len(),
            all == response.repositories@.map_values(|repo: MarketRepoRaw| plugin_of(repo)),
            plugins@.map_values(|plugin: MarketPlugin| plugin@) == all.take(at as int),
        decreases response.repositories.len() - at,
    {
        let ghost before = plugins@.map_values(|plugin: MarketPlugin| plugin@);
        plugins.push(plugin_from(&response.repositories[at]));
        assert(plugins@.map_values(|plugin: MarketPlugin| plugin@) =~= before.push(
            plugin_of(response.repositories@[at as int]),
        ));
        assert(plugins@.map_values(|plugin: MarketPlugin| plugin@) =~= all.take(at + 1));
        at += 1;
    }
    assert(all.take(at as int) =~= all);
    Ok(MarketCatalog { plugins, fetched_at: seconds })
}

/// Makes the catalogue of an answer, now.
pub fn parse_market_catalog(response: &MarketApiResponse) -> (r: Result<MarketCatalog, String>)
    ensures
        exists|time: std::time::SystemTime|
            catalog_or(
                r,
                catalog_outcome(
                    *response,
                    util::clock_seconds(#[trigger] util::seconds_since_epoch(time)),
                ),
            ),
{
    let seconds: u64 = util::epoch_secs();
    catalog_at(response, seconds)
}

/// Every plugin of a catalogue can be installed from GitHub.
pub proof fn law_plugins_come_from_github(response: MarketApiResponse, seconds: u64, at: int)
    requires
        response.schema_version == 1,
        0 <= at < response.repositories@.len(),
    ensures
        catalog_outcome(response, seconds)->Ok_0.plugins.len() == response.repositories@.len(),
        "github:"@.is_prefix_of(catalog_outcome(response, seconds)->Ok_0.plugins[at].spec),
{
    let spec = catalog_outcome(response, seconds)->Ok_0.plugins[at].spec;
    let prefix = "github:"@;
    assert(spec == prefix + response.repositories@[at].full_name@);
    assert(prefix =~= spec.subrange(0, prefix.len() as int));
}

/// Copies a plugin.
fn clone_plugin(plugin: &MarketPlugin) -> (r: MarketPlugin)
    ensures
        r@ == plugin@,
{
    let r = MarketPlugin {
        name: plugin.name.clone(),
        full_name: plugin.full_name.clone(),
        spec: plugin.spec.clone(),
        description: plugin.description.clone(),
        url: plugin.url.clone(),
        homepage: plugin.homepage.clone(),
        avatar_url: plugin.avatar_url.clone(),
        topics: text::clone_texts(&plugin.topics),
        language: plugin.language.clone(),
        stars: plugin.stars,
        pushed_at: plugin.pushed_at.clone(),
        archived: plugin.archived,
        project_type: plugin.project_type.clone(),
        category: plugin.category.clone(),
        verified: plugin.verified,
    };
    assert(r@ =~= plugin@);
    r
}

/// Copies a catalogue.
pub fn clone_catalog(catalog: &MarketCatalog) -> (r: MarketCatalog)
    ensures
        r@ == catalog@,
{
    let mut plugins: Vec<MarketPlugin> = Vec::new();
    let mut at: usize = 0;
    while at < catalog.plugins.len()
        invariant
            at <= catalog.plugins.len(),
            plugins@.map_values(|plugin: MarketPlugin| plugin@) == catalog@.plugins.take(at as int),
        decreases catalog.plugins.len() - at,
    {
        let ghost before = plugins@.map_values(|plugin: MarketPlugin| plugin@);
        plugins.push(clone_plugin(&catalog.plugins[at]));
        assert(plugins@.map_values(|plugin: MarketPlugin| plugin@) =~= before.push(
            catalog.plugins@[at as int]@,
        ));
        assert(plugins@.map_values(|plugin: MarketPlugin| plugin@) =~= catalog@.plugins.take(at + 1));
        at += 1;
    }
    let r = MarketCatalog { plugins, fetched_at: catalog.fetched_at };
    assert(r@ =~= catalog@);
    r
}

/// The catalogue that was fetched last, if any was.
pub struct MarketCache {
    pub catalog: Option<MarketCatalog>,
}

impl View for MarketCache {
    type V = Option<CatalogView>;

    open spec fn view(&self) -> Option<CatalogView> {
        match self.catalog {
            Some(catalog) => Some(catalog@),
            None => None,
        }
    }
}

/// The catalogue is recent enough, at a time in seconds. One from the future is.
pub open spec fn fresh(catalog: CatalogView, seconds: u64) -> bool {
    seconds < catalog.fetched_at + MARKET_TTL_SECS
}

/// The catalogue that is used without asking the store, if there is one. Who asks for a
/// refresh gets none.
pub open spec fn kept(cache: Option<CatalogView>, force: bool, seconds: u64) -> Option<CatalogView> {
    match cache {
        Some(catalog) => if !force && fresh(catalog, seconds) {
            Some(catalog)
        } else {
            None
        },
        None => None,
    }
}

/// What a request for the catalogue is answered once the store was asked. A refresh in the
/// background that fails falls back on what was fetched before; who asked for the refresh
/// is told of the failure.
pub open spec fn answered(
    cache: Option<CatalogView>,
    force: bool,
    outcome: Result<CatalogView, Seq<char>>,
) -> Result<CatalogView, Seq<char>> {
    match outcome {
        Ok(catalog) => Ok(catalog),
        Err(message) => if !force && cache is Some {
            Ok(cache->0)
        } else {
            Err(message)
        },
    }
}

/// What is kept once the store was asked.
pub open spec fn refreshed(
    cache: Option<CatalogView>,
    outcome: Result<CatalogView, Seq<char>>,
) -> Option<CatalogView> {
    match outcome {
        Ok(catalog) => Some(catalog),
        Err(_) => cache,
    }
}

/// The content of what the store was asked for.
pub open spec fn outcome_view(outcome: Result<MarketCatalog, String>) -> Result<
    CatalogView,
    Seq<char>,
> {
    match outcome {
        Ok(catalog) => Ok(catalog@),
        Err(message) => Err(message@),
    }
}

impl MarketCache {
    /// Nothing was fetched yet.
    pub fn new() -> (r: Self)
        ensures
            r@ is None,
    {
        MarketCache { catalog: None }
    }

    /// The catalogue that is used without asking the store, at a time in seconds.
    pub fn lookup(&self, force: bool, seconds: u64) -> (r: Option<MarketCatalog>)
        ensures
            match kept(self@, force, seconds) {
                Some(catalog) => r is Some && r->0@ == catalog,
                None => r is None,
            },
    {
        match &self.catalog {
            Some(catalog) => if !force && seconds.saturating_sub(catalog.fetched_at)
                < MARKET_TTL_SECS {
                Some(clone_catalog(catalog))
            } else {
                None
            },
            None => None,
        }
    }
}

/// Answers a request for the catalogue once the store was asked, and keeps what was fetched.
pub fn fetch_market(
    cache: &mut MarketCache,
    force: bool,
    outcome: Result<MarketCatalog, String>,
) -> (r: Result<MarketCatalog, String>)
    ensures
        catalog_or(r, answered(old(cache)@, force, outcome_view(outcome))),
        final(cache)@ == refreshed(old(cache)@, outcome_view(outcome)),
{
    match outcome {
        Ok(catalog) => {
            cache.catalog = Some(clone_catalog(&catalog));
            Ok(catalog)
        },
        Err(message) => {
            if !force {
                match &cache.catalog {
                    Some(catalog) => {
                        return Ok(clone_catalog(catalog));
                    },
                    None => {},
                }
            }
            Err(message)
        },
    }
}

/// What was fetched is used until its time is over, unless a refresh is asked for.
pub proof fn law_what_was_fetched_is_kept(
    cache: Option<CatalogView>,
    catalog: CatalogView,
    seconds: u64,
)
    requires
        seconds < catalog.fetched_at + MARKET_TTL_SECS,
    ensures
        kept(refreshed(cache, Ok(catalog)), false, seconds) == Some(catalog),
        kept(refreshed(cache, Ok(catalog)), true, seconds) is None,
{
}

/// A store that fails costs nothing: what was kept stays kept, and only who asked for a
/// refresh, or has nothing to fall back on, sees the failure.
pub proof fn law_a_failing_store_costs_nothing(
    cache: Option<CatalogView>,
    force: bool,
    message: Seq<char>,
)
    ensures
        refreshed(cache, Err(message)) == cache,
        answered(cache, force, Err(message)) is Err <==> force || cache is None,
        !force && cache is Some ==> answered(cache, force, Err(message)) == Ok::<
            CatalogView,
            Seq<char>,
        >(cache->0),
{
}

/// Says that the store's answer cannot be read.
pub fn parse_error(error: &str) -> (r: String)
    ensures
        r@ == "插件目录 API 响应解析失败："@ + error@,
{
    let mut message: String = "插件目录 API 响应解析失败：".to_string();
    message.append(error);
    message
}

/// Says that the store cannot be reached.
pub fn unreachable_error(error: &str) -> (r: String)
    ensures
        r@ == "无法访问插件商店 API："@ + error@,
{
    let mut message: String = "无法访问插件商店 API：".to_string();
    message.append(error);
    message
}

/// Says that the store's answer broke off.
pub fn reading_error(error: &str) -> (r: String)
    ensures
        r@ == "插件商店 API 响应读取失败："@ + error@,
{
    let mut message: String = "插件商店 API 响应读取失败：".to_string();
    message.append(error);
    message
}

/// A plugin is verified exactly where the store has checked its repository and the overall
/// result is the word for it, no other and no longer one.
pub proof fn law_only_verified_plugins_are_verified(
    response: MarketApiResponse,
    seconds: u64,
    at: int,
)
    requires
        response.schema_version == 1,
        0 <= at < response.repositories@.len(),
    ensures
        catalog_outcome(response, seconds)->Ok_0.plugins[at].verified <==> (
        response.repositories@[at].validation is Some
            && response.repositories@[at].validation->0.overall@ == "verified"@),
{
}

/// The catalogue has one plugin for each repository, in their order, and the time at which it
/// was made. An answer of any other version than the first is refused.
pub proof fn law_a_catalogue_lists_every_repository(response: MarketApiResponse, seconds: u64, at: int)
    ensures
        response.schema_version != 1 ==> catalog_outcome(response, seconds) == Err::<
            CatalogView,
            Seq<char>,
        >("插件目录 API 版本不兼容：schemaVersion="@ + text::decimal(response.schema_version as nat)),
        response.schema_version == 1 ==> catalog_outcome(response, seconds) is Ok && catalog_outcome(
            response,
            seconds,
        )->Ok_0.plugins.len() == response.repositories@.len() && catalog_outcome(
            response,
            seconds,
        )->Ok_0.fetched_at == seconds,
        response.schema_version == 1 && 0 <= at < response.repositories@.len() ==> catalog_outcome(
            response,
            seconds,
        )->Ok_0.plugins[at] == plugin_of(response.repositories@[at]),
{
}

/// A repository is shown with what the store says of it. It is installed from GitHub by its full
/// name, and what the store does not say reads as empty.
pub proof fn law_a_repository_is_shown_as_it_is(repo: MarketRepoRaw)
    ensures
        plugin_of(repo).name == repo.name@,
        plugin_of(repo).full_name == repo.full_name@,
        plugin_of(repo).spec == "github:"@ + repo.full_name@,
        plugin_of(repo).url == repo.url@,
        plugin_of(repo).stars == repo.stars,
        plugin_of(repo).archived == repo.archived,
        plugin_of(repo).topics.len() == repo.topics@.len(),
        forall|i: int|
            0 <= i < repo.topics@.len() ==> #[trigger] plugin_of(repo).topics[i] == repo.topics@[i]@,
        repo.description is Some ==> plugin_of(repo).description == repo.description->0@,
        repo.description is None ==> plugin_of(repo).description.len() == 0,
        repo.homepage is Some ==> plugin_of(repo).homepage == repo.homepage->0@,
        repo.homepage is None ==> plugin_of(repo).homepage.len() == 0,
        repo.owner is Some ==> plugin_of(repo).avatar_url == repo.owner->0.avatar_url@,
        repo.owner is None ==> plugin_of(repo).avatar_url.len() == 0,
        repo.language is Some ==> plugin_of(repo).language == repo.language->0@,
        repo.language is None ==> plugin_of(repo).language.len() == 0,
        repo.pushed_at is Some ==> plugin_of(repo).pushed_at == repo.pushed_at->0@,
        repo.pushed_at is None ==> plugin_of(repo).pushed_at.len() == 0,
        repo.project_type is Some ==> plugin_of(repo).project_type == repo.project_type->0@,
        repo.project_type is None ==> plugin_of(repo).project_type == "unknown"@,
{
}

/// The category is the one that the repository names; where it names none, the first of its
/// list; and `other` where that is empty.
pub proof fn law_the_category_that_is_named_counts(repo: MarketRepoRaw)
    ensures
        repo.category is Some ==> plugin_of(repo).category == repo.category->0@,
        repo.category is None && repo.categories@.len() > 0 ==> plugin_of(repo).category
            == repo.categories@[0]@,
        repo.category is None && repo.categories@.len() == 0 ==> plugin_of(repo).category == "other"@,
{
}

/// The store is asked again exactly where nothing was fetched, a refresh is asked for, or ten
/// minutes have passed since.
pub proof fn law_the_catalogue_is_kept_for_ten_minutes(
    cache: Option<CatalogView>,
    force: bool,
    seconds: u64,
)
    ensures
        kept(cache, force, seconds) is None <==> cache is None || force || seconds
            >= cache->0.fetched_at + 600,
        kept(cache, force, seconds) is Some ==> kept(cache, force, seconds) == cache,
{
}

/// What was fetched is what is answered and what is kept, whatever was kept before.
pub proof fn law_what_was_fetched_is_answered(
    cache: Option<CatalogView>,
    force: bool,
    catalog: CatalogView,
)
    ensures
        answered(cache, force, Ok(catalog)) == Ok::<CatalogView, Seq<char>>(catalog),
        refreshed(cache, Ok(catalog)) == Some(catalog),
{
}

/// A failure that is told is told in the words of the failure.
pub proof fn law_a_failure_is_told_as_it_is(
    cache: Option<CatalogView>,
    force: bool,
    message: Seq<char>,
)
    ensures
        answered(cache, force, Err(message)) is Err ==> answered(cache, force, Err(message)) == Err::<
            CatalogView,
            Seq<char>,
        >(message),
{
}

/// What a request comes to is what is answered.
pub proof fn law_a_catalogue_is_answered(
    r: Result<MarketCatalog, String>,
    expected: Result<CatalogView, Seq<char>>,
)
    requires
        catalog_or(r, expected),
    ensures
        r is Ok <==> expected is Ok,
        r is Ok ==> r->Ok_0@ == expected->Ok_0,
        r is Err ==> r->Err_0@ == expected->Err_0,
{
}

} // verus!
