use catalyst::manifest::{
    load_manifest, load_spark_manifests, manifest_defaults, parse_manifest_text, read_manifest, ManifestSource,
    TomlValue,
};
use catalyst::spark_state::{validate_spark_manifest, ManifestRead, SparkSection};
use catalyst::sparks::{init_spark_configs, register_spark_overrides, ConfigTable, ConfigValue, SparkConfigs};

const VIGIL: &str = r#"
[spark]
name = "vigil"
version = "1.0.0"
description = "Watches things"
author = "someone"
port = 8080

[config.defaults]
enabled = true
interval = 30
label = "night"
"#;

fn sorted_fields(read: &ManifestRead) -> Vec<(String, Option<String>)> {
    match read {
        ManifestRead::Parsed(SparkSection::Table(fields)) => {
            let mut f = fields.clone();
            f.sort();
            f
        },
        other => panic!("unexpected {:?}", other),
    }
}

fn setting<'a>(table: &'a ConfigTable, key: &str) -> Option<&'a ConfigValue> {
    table.as_ref()?.iter().find(|(k, _)| k == key).map(|(_, v)| v)
}

fn config<'a>(configs: &'a Option<SparkConfigs>, name: &str) -> Option<&'a catalyst::sparks::SparkConfig> {
    configs.as_ref()?.iter().find(|(n, _)| n == name).map(|(_, c)| c)
}

#[test]
fn a_manifest_text_gives_its_spark_section() {
    let read = parse_manifest_text(VIGIL);
    assert_eq!(
        sorted_fields(&read),
        vec![
            ("author".to_string(), Some("someone".to_string())),
            ("description".to_string(), Some("Watches things".to_string())),
            ("name".to_string(), Some("vigil".to_string())),
            ("port".to_string(), None),
            ("version".to_string(), Some("1.0.0".to_string())),
        ]
    );
    assert_eq!(validate_spark_manifest(&read, "vigil"), Ok(()));
    assert!(validate_spark_manifest(&read, "other").is_err());
}

#[test]
fn a_text_that_is_not_toml_is_unparsable() {
    match parse_manifest_text("[spark\nname = ") {
        ManifestRead::Unparsable(e) => assert!(!e.is_empty()),
        other => panic!("unexpected {:?}", other),
    }
    let read = parse_manifest_text("name = = 1");
    assert!(validate_spark_manifest(&read, "vigil").unwrap_err().starts_with("Failed to parse manifest.toml: "));
}

#[test]
fn the_spark_section_may_be_missing_or_not_a_table() {
    assert!(matches!(parse_manifest_text("title = \"x\"\n"), ManifestRead::Parsed(SparkSection::Missing)));
    assert!(matches!(parse_manifest_text("spark = 3\n"), ManifestRead::Parsed(SparkSection::NotTable)));
    assert!(matches!(parse_manifest_text(""), ManifestRead::Parsed(SparkSection::Missing)));
    assert_eq!(
        validate_spark_manifest(&parse_manifest_text("spark = \"x\"\n"), "vigil"),
        Err("[spark] section must be a table".to_string())
    );
}

#[test]
fn an_unreadable_manifest_keeps_its_read_error() {
    assert!(matches!(read_manifest(&Err("gone".to_string())), ManifestRead::Unreadable(e) if e == "gone"));
    assert!(matches!(read_manifest(&Ok("spark = 1".to_string())), ManifestRead::Parsed(SparkSection::NotTable)));
}

#[test]
fn the_defaults_come_from_config_defaults() {
    let doc = TomlValue::Table(vec![(
        "config".to_string(),
        TomlValue::Table(vec![(
            "defaults".to_string(),
            TomlValue::Table(vec![
                ("enabled".to_string(), TomlValue::Boolean(false)),
                ("rate".to_string(), TomlValue::Float("0.5".to_string())),
                ("when".to_string(), TomlValue::Datetime("1979-05-27".to_string())),
                ("name".to_string(), TomlValue::Text("x".to_string())),
                ("n".to_string(), TomlValue::Integer(-4)),
            ]),
        )]),
    )]);
    let defaults = manifest_defaults(&doc).unwrap();
    assert_eq!(defaults.len(), 5);
    assert!(matches!(defaults[0], (ref k, ConfigValue::Boolean(false)) if k == "enabled"));
    assert!(matches!(defaults[1], (ref k, ConfigValue::Float(ref f)) if k == "rate" && f == "0.5"));
    assert!(matches!(defaults[2], (ref k, ConfigValue::Other) if k == "when"));
    assert!(matches!(defaults[3], (ref k, ConfigValue::Text(ref t)) if k == "name" && t == "x"));
    assert!(matches!(defaults[4], (ref k, ConfigValue::Integer(-4)) if k == "n"));
}

#[test]
fn a_manifest_without_defaults_declares_an_empty_table() {
    let doc = TomlValue::Table(vec![("spark".to_string(), TomlValue::Table(vec![]))]);
    assert_eq!(manifest_defaults(&doc).map(|t| t.len()), Some(0));
    let not_table = TomlValue::Table(vec![(
        "config".to_string(),
        TomlValue::Table(vec![("defaults".to_string(), TomlValue::Integer(1))]),
    )]);
    assert!(manifest_defaults(&not_table).is_none());
}

#[test]
fn loading_a_manifest_records_defaults_and_overrides() {
    let mut configs: Option<SparkConfigs> = None;
    init_spark_configs(&mut configs);
    let overrides: ConfigTable = Some(vec![("interval".to_string(), ConfigValue::Integer(5))]);
    assert_eq!(load_manifest(&mut configs, "vigil", VIGIL, Some(overrides)), Ok(()));
    let c = config(&configs, "vigil").unwrap();
    assert!(matches!(setting(&c.defaults, "interval"), Some(ConfigValue::Integer(30))));
    assert!(matches!(setting(&c.defaults, "enabled"), Some(ConfigValue::Boolean(true))));
    assert!(matches!(setting(&c.overrides, "interval"), Some(ConfigValue::Integer(5))));
}

#[test]
fn loading_without_overrides_keeps_those_configured() {
    let mut configs: Option<SparkConfigs> = None;
    init_spark_configs(&mut configs);
    register_spark_overrides(&mut configs, "vigil", Some(vec![("label".to_string(), ConfigValue::Text("day".into()))]));
    assert_eq!(load_manifest(&mut configs, "vigil", VIGIL, None), Ok(()));
    let c = config(&configs, "vigil").unwrap();
    assert!(matches!(setting(&c.overrides, "label"), Some(ConfigValue::Text(t)) if t == "day"));
    assert!(matches!(setting(&c.defaults, "label"), Some(ConfigValue::Text(t)) if t == "night"));
}

#[test]
fn a_manifest_that_does_not_parse_loads_nothing() {
    let mut configs: Option<SparkConfigs> = None;
    init_spark_configs(&mut configs);
    assert!(load_manifest(&mut configs, "vigil", "[[[", None).is_err());
    assert_eq!(configs.as_ref().map(|c| c.len()), Some(0));
}

#[test]
fn only_the_manifests_that_load_are_registered() {
    let mut configs: Option<SparkConfigs> = None;
    init_spark_configs(&mut configs);
    let sources = vec![
        ManifestSource { name: "a".to_string(), text: Some(Ok(VIGIL.to_string())), overrides: None },
        ManifestSource { name: "b".to_string(), text: None, overrides: None },
        ManifestSource { name: "c".to_string(), text: Some(Err("denied".to_string())), overrides: None },
        ManifestSource { name: "d".to_string(), text: Some(Ok("x = ".to_string())), overrides: None },
        ManifestSource { name: "e".to_string(), text: Some(Ok(String::new())), overrides: Some(None) },
    ];
    assert_eq!(load_spark_manifests(&mut configs, sources), vec!["a".to_string(), "e".to_string()]);
    assert!(config(&configs, "a").is_some());
    assert!(config(&configs, "b").is_none());
    assert!(config(&configs, "d").is_none());
    let e = config(&configs, "e").unwrap();
    assert_eq!(e.defaults.as_ref().map(|t| t.len()), Some(0));
    assert!(e.overrides.is_none());
}

#[test]
fn without_settings_the_loaded_names_are_still_returned() {
    let mut configs: Option<SparkConfigs> = None;
    let sources = vec![ManifestSource { name: "a".to_string(), text: Some(Ok(VIGIL.to_string())), overrides: None }];
    assert_eq!(load_spark_manifests(&mut configs, sources), vec!["a".to_string()]);
    assert!(configs.is_none());
}
