use dsh_launcher::market::{
    catalog_at, fetch_market, parse_error, parse_market_catalog, reading_error, unreachable_error,
    MarketApiResponse, MarketCache, MarketCatalog, MarketOwnerRaw, MarketRepoRaw,
    MarketValidationRaw,
};
use serde_json::Value;

const CATALOG: &str = r##"{"schemaVersion":1,"repositories":[{"repositoryId":1,"name":"dsh-web-ui","fullName":"o/dsh-web-ui","description":"d","url":"https://github.com/o/dsh-web-ui","owner":{"login":"o","avatarUrl":"https://avatars.githubusercontent.com/u/1"},"topics":["dsh-plugin"],"language":"TypeScript","stars":12,"pushedAt":"2026-08-14T00:00:00Z","archived":false,"projectType":"plugin","category":"ui","categories":["ui"],"validation":{"overall":"verified"}}]}"##;

fn text(value: &Value, key: &str) -> Option<String> {
    value.get(key).and_then(Value::as_str).map(str::to_string)
}

fn texts(value: &Value, key: &str) -> Vec<String> {
    let items = value.get(key).and_then(Value::as_array).cloned().unwrap_or_default();
    items.iter().filter_map(|item| item.as_str().map(str::to_string)).collect()
}

fn response(json: &str) -> MarketApiResponse {
    let value: Value = serde_json::from_str(json).unwrap();
    let repositories = value["repositories"]
        .as_array()
        .unwrap()
        .iter()
        .map(|repo| MarketRepoRaw {
            name: text(repo, "name").unwrap_or_default(),
            full_name: text(repo, "fullName").unwrap_or_default(),
            description: text(repo, "description"),
            url: text(repo, "url").unwrap_or_default(),
            homepage: text(repo, "homepage"),
            owner: repo.get("owner").map(|owner| MarketOwnerRaw {
                avatar_url: text(owner, "avatarUrl").unwrap_or_default(),
            }),
            topics: texts(repo, "topics"),
            language: text(repo, "language"),
            stars: repo.get("stars").and_then(Value::as_u64).unwrap_or_default(),
            pushed_at: text(repo, "pushedAt"),
            archived: repo.get("archived").and_then(Value::as_bool).unwrap_or_default(),
            project_type: text(repo, "projectType"),
            category: text(repo, "category"),
            categories: texts(repo, "categories"),
            validation: repo.get("validation").map(|validation| MarketValidationRaw {
                overall: text(validation, "overall").unwrap_or_default(),
            }),
        })
        .collect();
    MarketApiResponse {
        schema_version: value["schemaVersion"].as_u64().unwrap(),
        repositories,
    }
}

#[test]
fn market_parses_market_catalog_api() {
    let catalog = parse_market_catalog(&response(CATALOG)).expect("catalog should parse");
    assert_eq!(catalog.plugins.len(), 1);
    let plugin = &catalog.plugins[0];
    assert_eq!(plugin.spec, "github:o/dsh-web-ui");
    assert_eq!(plugin.category, "ui");
    assert!(plugin.verified);
}

#[test]
fn lib_parses_market_catalog_api() {
    let catalog = parse_market_catalog(&response(CATALOG)).expect("catalog should parse");
    assert_eq!(catalog.plugins.len(), 1);
    let plugin = &catalog.plugins[0];
    assert_eq!(plugin.spec, "github:o/dsh-web-ui");
    assert_eq!(plugin.category, "ui");
    assert!(plugin.verified);
}

#[test]
fn market_rejects_unknown_market_catalog_schema() {
    let error = parse_market_catalog(&response(r##"{"schemaVersion":2,"repositories":[]}"##))
        .expect_err("unknown schema should be rejected");
    assert!(error.contains("schemaVersion=2"));
}

#[test]
fn lib_rejects_unknown_market_catalog_schema() {
    let error = parse_market_catalog(&response(r##"{"schemaVersion":2,"repositories":[]}"##))
        .expect_err("unknown schema should be rejected");
    assert!(error.contains("schemaVersion=2"));
}

#[test]
fn a_plugin_has_all_that_its_repository_says() {
    let catalog = catalog_at(&response(CATALOG), 17).unwrap();
    assert_eq!(catalog.fetched_at, 17);
    let plugin = &catalog.plugins[0];
    assert_eq!(plugin.name, "dsh-web-ui");
    assert_eq!(plugin.full_name, "o/dsh-web-ui");
    assert_eq!(plugin.description, "d");
    assert_eq!(plugin.url, "https://github.com/o/dsh-web-ui");
    assert_eq!(plugin.homepage, "");
    assert_eq!(plugin.avatar_url, "https://avatars.githubusercontent.com/u/1");
    assert_eq!(plugin.topics, vec!["dsh-plugin"]);
    assert_eq!(plugin.language, "TypeScript");
    assert_eq!(plugin.stars, 12);
    assert_eq!(plugin.pushed_at, "2026-08-14T00:00:00Z");
    assert!(!plugin.archived);
    assert_eq!(plugin.project_type, "plugin");
}

#[test]
fn what_a_repository_leaves_out() {
    let bare = r##"{"schemaVersion":1,"repositories":[{},{"categories":["x","y"],
        "validation":{"overall":"pending"}}]}"##;
    let catalog = catalog_at(&response(bare), 0).unwrap();
    let plugin = &catalog.plugins[0];
    assert_eq!(plugin.spec, "github:");
    assert_eq!(plugin.project_type, "unknown");
    assert_eq!(plugin.category, "other");
    assert_eq!(plugin.avatar_url, "");
    assert!(!plugin.verified);
    assert_eq!(catalog.plugins[1].category, "x");
    assert!(!catalog.plugins[1].verified);
}

fn catalog(fetched_at: u64) -> MarketCatalog {
    catalog_at(&response(CATALOG), fetched_at).unwrap()
}

#[test]
fn a_catalogue_is_kept_for_ten_minutes() {
    let mut cache = MarketCache::new();
    assert!(cache.lookup(false, 0).is_none());
    let answer = fetch_market(&mut cache, false, Ok(catalog(1000))).unwrap();
    assert_eq!(answer.fetched_at, 1000);
    let kept = cache.lookup(false, 1599).unwrap();
    assert_eq!((kept.fetched_at, kept.plugins[0].spec.as_str()), (1000, "github:o/dsh-web-ui"));
    assert!(cache.lookup(false, 900).is_some());
    assert!(cache.lookup(false, 1600).is_none());
    assert!(cache.lookup(true, 1000).is_none());
}

#[test]
fn a_failing_store_falls_back_unless_a_refresh_was_asked_for() {
    let mut cache = MarketCache::new();
    let failure = || Err("down".to_string());
    assert_eq!(fetch_market(&mut cache, false, failure()).unwrap_err(), "down");
    fetch_market(&mut cache, true, Ok(catalog(1000))).unwrap();
    assert_eq!(fetch_market(&mut cache, false, failure()).unwrap().fetched_at, 1000);
    assert_eq!(fetch_market(&mut cache, true, failure()).unwrap_err(), "down");
    assert_eq!(cache.lookup(false, 1000).unwrap().fetched_at, 1000);
}

#[test]
fn complaints_about_the_store() {
    assert_eq!(parse_error("e"), "插件目录 API 响应解析失败：e");
    assert_eq!(unreachable_error("e"), "无法访问插件商店 API：e");
    assert_eq!(reading_error("e"), "插件商店 API 响应读取失败：e");
}
