use std::sync::Arc;

use shadot::cell::{
    apply_update, config, init_config, init_outcome, install_loaded, resolve_config, resolve_init,
    settle, settle_loaded, update, update_outcome,
    ConfigCell, InitOutcome, UsageError,
};
use shadot::codec::{decode, encode, file_name, load};
use shadot::config::{Config, ConfigFormat};
use shadot::document::Document;
use shadot::loader::load_layers;
use shadot::validate::{validate, ValidationError};

fn snapshot(dir: &str, format: &str) -> Config {
    Config { shadow_dir: dir.to_string(), preferred_config_type: format.to_string() }
}

fn field(key: &str, value: &str) -> (String, Option<String>) {
    (key.to_string(), Some(value.to_string()))
}

#[test]
fn load_without_overrides_gives_default() {
    let c = load(None, None, None).unwrap();
    assert_eq!(c, Config::builtin());
    assert_eq!(c.preferred_config_type, "toml");
    assert_eq!(c.shadow_dir, "~/.local/share/shadot");
    assert_eq!(load_layers(&vec![]).unwrap(), Config::builtin());
}

#[test]
fn highest_precedence_layer_wins() {
    let json = r#"{"preferred-config-type": "yaml"}"#;
    let toml = "preferred-config-type = \"json\"\n";
    let c = load(Some(json), None, Some(toml)).unwrap();
    assert_eq!(c.preferred_config_type, "json");
    assert_eq!(c.shadow_dir, "~/.local/share/shadot");
}

#[test]
fn yaml_overrides_json_and_keeps_other_fields() {
    let json = r#"{"shadow-directory": "/a", "preferred-config-type": "json"}"#;
    let yaml = "shadow-directory: /b\n";
    let c = load(Some(json), Some(yaml), None).unwrap();
    assert_eq!(c, snapshot("/b", "json"));
}

#[test]
fn unknown_field_is_rejected_and_named() {
    let json = r#"{"preferred-config-type": "yaml", "colour": "blue"}"#;
    let errs = load(Some(json), None, None).unwrap_err();
    assert!(errs.contains(&ValidationError::UnknownField("colour".to_string())));
    let cell = ConfigCell::new();
    let r = init_config(&cell, || load(Some(json), None, None));
    assert!(r.is_err());
    assert!(cell.current().is_none());
}

#[test]
fn all_errors_are_reported_together() {
    let json = r#"{"a": "1", "shadow-directory": 3}"#;
    let toml = "preferred-config-type = \"xml\"\nb = 2\n";
    let errs = load(Some(json), None, Some(toml)).unwrap_err();
    assert_eq!(errs.len(), 4);
    assert!(errs.contains(&ValidationError::UnknownField("a".to_string())));
    assert!(errs.contains(&ValidationError::UnknownField("b".to_string())));
    assert!(errs.contains(&ValidationError::WrongType("shadow-directory".to_string())));
    assert!(errs.contains(&ValidationError::InvalidValue("preferred-config-type".to_string())));
}

#[test]
fn malformed_source_is_reported() {
    let errs = load(Some("{not json"), Some("a: [1"), None).unwrap_err();
    assert_eq!(errs.len(), 2);
    assert!(matches!(errs[0], ValidationError::Malformed(ConfigFormat::Json, _)));
    assert!(matches!(errs[1], ValidationError::Malformed(ConfigFormat::Yaml, _)));
}

#[test]
fn missing_field_is_reported() {
    let mut doc = Document::new();
    doc.put("shadow-directory".to_string(), Some("/s".to_string()));
    let errs = validate(&doc).unwrap_err();
    assert_eq!(errs, vec![ValidationError::MissingField("preferred-config-type".to_string())]);
}

#[test]
fn document_put_replaces_existing_key() {
    let mut doc = Document::new();
    doc.put("k".to_string(), Some("1".to_string()));
    doc.put("k".to_string(), None);
    assert_eq!(doc.fields, vec![("k".to_string(), None)]);
}

#[test]
fn later_field_in_a_layer_wins() {
    let layer = vec![field("preferred-config-type", "yaml"), field("preferred-config-type", "json")];
    assert_eq!(load_layers(&vec![layer]).unwrap().preferred_config_type, "json");
}

#[test]
fn decoders_read_each_format() {
    let fs = decode(ConfigFormat::Json, r#"{"x": "1", "y": 2}"#).unwrap();
    assert_eq!(fs, vec![field("x", "1"), ("y".to_string(), None)]);
    let fs = decode(ConfigFormat::Yaml, "x: '1'\ny: [2]\n").unwrap();
    assert_eq!(fs, vec![field("x", "1"), ("y".to_string(), None)]);
    let fs = decode(ConfigFormat::Toml, "x = \"1\"\ny = true\n").unwrap();
    assert_eq!(fs, vec![field("x", "1"), ("y".to_string(), None)]);
    assert!(decode(ConfigFormat::Toml, "x = ").is_err());
}

#[test]
fn save_then_load_round_trips_in_each_format() {
    for format in ["json", "yaml", "toml"] {
        let c = snapshot("/home/me/shadows", format);
        let text = encode(&c);
        assert!(!text.is_empty());
        let loaded = match format {
            "json" => load(Some(&text), None, None),
            "yaml" => load(None, Some(&text), None),
            _ => load(None, None, Some(&text)),
        };
        assert_eq!(loaded.unwrap(), c);
    }
}

#[test]
fn encoders_write_the_fields() {
    let text = encode(&snapshot("/d", "json"));
    assert!(text.contains("\"shadow-directory\": \"/d\""));
    let text = encode(&snapshot("/d", "yaml"));
    assert!(text.contains("shadow-directory: /d"));
    let text = encode(&snapshot("/d", "toml"));
    assert!(text.contains("shadow-directory = \"/d\""));
}

#[test]
fn file_name_follows_preferred_format() {
    assert_eq!(file_name(&snapshot("/d", "yaml")), "shadot.yaml");
    assert_eq!(file_name(&snapshot("/d", "json")), "shadot.json");
    assert_eq!(file_name(&snapshot("/d", "toml")), "shadot.toml");
    assert_eq!(ConfigFormat::from_tag(&"xml".to_string()), None);
    assert_eq!(ConfigFormat::Yaml.tag(), "yaml");
}

#[test]
fn update_before_initialize_is_rejected() {
    let cell = ConfigCell::new();
    let r = update(&cell, |mut c: Config| {
        c.shadow_dir = "/x".to_string();
        c
    });
    assert_eq!(r, Err(UsageError::NotInitialized));
    assert!(cell.current().is_none());
}

#[test]
fn initialize_then_update_then_read() {
    let cell = ConfigCell::new();
    assert_eq!(init_config(&cell, || Ok(Config::builtin())), Ok(InitOutcome::Installed));
    assert_eq!(
        init_config(&cell, || Ok(snapshot("/other", "json"))),
        Ok(InitOutcome::AlreadyInitialized)
    );
    assert_eq!(
        update(&cell, |mut c: Config| {
            c.preferred_config_type = "yaml".to_string();
            c
        }),
        Ok(())
    );
    let c = cell.current().unwrap();
    assert_eq!(*c, snapshot("~/.local/share/shadot", "yaml"));
}

#[test]
fn read_falls_back_to_loading_once() {
    let cell = ConfigCell::new();
    let c = config(&cell, || Ok(snapshot("/a", "json"))).unwrap();
    assert_eq!(*c, snapshot("/a", "json"));
    let again = config(&cell, || Ok(snapshot("/b", "toml"))).unwrap();
    assert!(Arc::ptr_eq(&c, &again));
    let bad = ConfigCell::new();
    let errs = config(&bad, || Err(vec![ValidationError::UnknownField("z".to_string())]));
    assert!(errs.is_err());
    assert!(bad.current().is_none());
}

#[test]
fn one_update_attempt_applies_to_a_copy() {
    let held = Some(Arc::new(snapshot("/a", "json")));
    let next = apply_update(&held, &|mut c: Config| {
        c.shadow_dir.push_str("/b");
        c
    });
    assert_eq!(*next.unwrap(), snapshot("/a/b", "json"));
    assert_eq!(*held.unwrap(), snapshot("/a", "json"));
    assert!(apply_update(&None, &|c: Config| c).is_none());
}

#[test]
fn repeated_initialize_installs_exactly_one() {
    let cell = ConfigCell::new();
    let outcomes: Vec<InitOutcome> = (0..8)
        .map(|i| init_config(&cell, || Ok(snapshot(&format!("/d{i}"), "toml"))).unwrap())
        .collect();
    assert_eq!(outcomes.iter().filter(|o| **o == InitOutcome::Installed).count(), 1);
    assert_eq!(outcomes[0], InitOutcome::Installed);
    assert_eq!(*cell.current().unwrap(), snapshot("/d0", "toml"));
}

#[test]
fn successive_updates_lose_nothing() {
    let cell = ConfigCell::new();
    init_config(&cell, || Ok(snapshot("", "toml"))).unwrap();
    for i in 0..8 {
        update(&cell, move |mut c: Config| {
            c.shadow_dir.push_str(&format!("<{i}>"));
            c
        })
        .unwrap();
    }
    let c = cell.current().unwrap();
    for i in 0..8 {
        assert!(c.shadow_dir.contains(&format!("<{i}>")));
    }
}

#[test]
fn initialization_outcome_follows_what_the_cell_held() {
    assert_eq!(init_outcome(&None), InitOutcome::Installed);
    let held = Some(Arc::new(Config::builtin()));
    assert_eq!(init_outcome(&held), InitOutcome::AlreadyInitialized);
}

#[test]
fn settle_keeps_the_winner() {
    let mine = Arc::new(snapshot("/mine", "json"));
    let winner = Arc::new(snapshot("/winner", "yaml"));
    assert!(Arc::ptr_eq(&settle(Some(winner.clone()), mine.clone()), &winner));
    assert!(Arc::ptr_eq(&settle(None, mine.clone()), &mine));
}

#[test]
fn update_outcome_rejects_an_empty_cell() {
    assert_eq!(update_outcome(&None), Err(UsageError::NotInitialized));
    assert_eq!(update_outcome(&Some(Arc::new(Config::builtin()))), Ok(()));
}

#[test]
fn resolve_returns_a_held_snapshot_without_loading() {
    let cell = ConfigCell::new();
    let held = Arc::new(snapshot("/held", "toml"));
    let r = resolve_config(&cell, Some(held.clone()), || -> Result<Config, Vec<ValidationError>> {
        panic!("the loader must not run")
    })
    .unwrap();
    assert!(Arc::ptr_eq(&r, &held));
    assert!(cell.current().is_none());
    let loaded = resolve_config(&cell, None, || Ok(snapshot("/new", "json"))).unwrap();
    assert_eq!(*loaded, snapshot("/new", "json"));
    assert!(Arc::ptr_eq(&loaded, &cell.current().unwrap()));
}

#[test]
fn failed_load_installs_nothing() {
    let cell = ConfigCell::new();
    let errs = vec![ValidationError::UnknownField("extra-key".to_string())];
    assert_eq!(install_loaded(&cell, Err(errs.clone())), Err(errs.clone()));
    assert!(cell.current().is_none());
    assert_eq!(settle_loaded(&cell, Err(errs.clone())), Err(errs));
    assert!(cell.current().is_none());
}

#[test]
fn loaded_snapshot_is_installed_once() {
    let cell = ConfigCell::new();
    assert_eq!(install_loaded(&cell, Ok(snapshot("/a", "json"))), Ok(InitOutcome::Installed));
    assert_eq!(
        install_loaded(&cell, Ok(snapshot("/b", "yaml"))),
        Ok(InitOutcome::AlreadyInitialized)
    );
    let c = settle_loaded(&cell, Ok(snapshot("/c", "toml"))).unwrap();
    assert_eq!(*c, snapshot("/a", "json"));
}

#[test]
fn held_cell_skips_the_loader_on_initialize() {
    let cell = ConfigCell::new();
    let held = Some(Arc::new(Config::builtin()));
    let r = resolve_init(&cell, &held, || -> Result<Config, Vec<ValidationError>> {
        panic!("the loader must not run")
    });
    assert_eq!(r, Ok(InitOutcome::AlreadyInitialized));
    let json = r#"{"extra-key": "1"}"#;
    let r = resolve_init(&cell, &None, || load(Some(json), None, None));
    assert!(r.unwrap_err().contains(&ValidationError::UnknownField("extra-key".to_string())));
    assert!(cell.current().is_none());
}
