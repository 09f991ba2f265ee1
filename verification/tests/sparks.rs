use catalyst::hooks::BootstrapPhase;
use catalyst::spark_state::{
    check_spark_in_mod_rs, check_spark_in_registry, get_sparks_from_mod_rs, get_sparks_from_registry,
    validate_and_sync_spark_state, validate_configured_sparks, validate_spark_manifest,
    ConfiguredSpark, ManifestRead, SparkCheck, SparkInstall, SparkSection, SparkState,
};
use catalyst::sparks::{
    enabled_setting, get_available_sparks, get_spark_config_bool, get_template_components, init_registry,
    init_spark_configs, init_template_registry, is_known_spark, register_footer_script, register_head_script,
    register_head_style, register_meta_tag, register_spark, register_spark_manifest, register_spark_overrides,
    spark_setting_variable, ConfigValue, SparkLoggingFairing, SparkRegistry,
};

fn manifest(fields: &[(&str, Option<&str>)]) -> ManifestRead {
    ManifestRead::Parsed(SparkSection::Table(
        fields.iter().map(|(k, v)| (k.to_string(), v.map(|s| s.to_string()))).collect(),
    ))
}

fn good_manifest(name: &str) -> ManifestRead {
    manifest(&[("name", Some(name)), ("version", Some("1.0")), ("description", Some("d")), ("author", Some("a"))])
}

#[test]
fn manifests_are_validated() {
    assert!(validate_spark_manifest(&good_manifest("vigil"), "vigil").is_ok());
    assert_eq!(
        validate_spark_manifest(&good_manifest("other"), "vigil"),
        Err("Spark name mismatch: directory name 'vigil' does not match manifest name 'other'".to_string())
    );
    assert_eq!(
        validate_spark_manifest(&manifest(&[("name", Some("vigil")), ("version", None)]), "vigil"),
        Err("Field 'version' must be a string".to_string())
    );
    assert_eq!(
        validate_spark_manifest(&manifest(&[("name", Some("vigil"))]), "vigil"),
        Err("Missing required field 'version' in [spark] section".to_string())
    );
    assert_eq!(
        validate_spark_manifest(&ManifestRead::Parsed(SparkSection::Missing), "x"),
        Err("Missing [spark] section in manifest.toml".to_string())
    );
    assert_eq!(
        validate_spark_manifest(&ManifestRead::Unreadable("gone".to_string()), "x"),
        Err("Failed to read manifest.toml: gone".to_string())
    );
}

#[test]
fn configured_sparks_must_be_installed_and_valid() {
    assert!(matches!(validate_configured_sparks(&vec![]), SparkCheck::NoneConfigured));
    let ok = vec![ConfiguredSpark {
        name: "vigil".to_string(),
        source: "https://x".to_string(),
        dir_exists: true,
        manifest: Some(good_manifest("vigil")),
    }];
    assert!(matches!(validate_configured_sparks(&ok), SparkCheck::Valid));
    let mixed = vec![
        ConfiguredSpark { name: "a".to_string(), source: "u".to_string(), dir_exists: true, manifest: None },
        ConfiguredSpark { name: "b".to_string(), source: "unknown".to_string(), dir_exists: false, manifest: None },
    ];
    match validate_configured_sparks(&mixed) {
        SparkCheck::Missing(m) => assert_eq!(m, vec![("b".to_string(), "unknown".to_string())]),
        other => panic!("unexpected {:?}", other),
    }
    let invalid = vec![ConfiguredSpark { name: "a".to_string(), source: "u".to_string(), dir_exists: true, manifest: None }];
    match validate_configured_sparks(&invalid) {
        SparkCheck::Invalid(v) => assert_eq!(v, vec!["a".to_string()]),
        other => panic!("unexpected {:?}", other),
    }
}

#[test]
fn registry_and_modules_are_read() {
    let registry: Result<Option<String>, String> = Ok(Some(
        "match name {\n    \"plznohac\" => {\n    \"vigil\" => {\n    _ => {\n}\n".to_string(),
    ));
    assert!(check_spark_in_registry(&registry, "vigil"));
    assert!(!check_spark_in_registry(&registry, "ghost"));
    assert_eq!(get_sparks_from_registry(&registry), Ok(vec!["plznohac".to_string(), "vigil".to_string()]));
    let mods: Result<Option<String>, String> = Ok(Some("pub mod makeuse;\npub mod registry;\n  pub mod vigil;  \n".to_string()));
    assert!(check_spark_in_mod_rs(&mods, "vigil"));
    assert_eq!(get_sparks_from_mod_rs(&mods), Ok(vec!["vigil".to_string()]));
    assert_eq!(get_sparks_from_mod_rs(&Ok(None)), Ok(vec![]));
    assert_eq!(get_sparks_from_mod_rs(&Err("denied".to_string())), Err("Failed to read mod.rs: denied".to_string()));
    assert!(!check_spark_in_registry(&Ok(None), "vigil"));
}

#[test]
fn spark_state_must_match_configuration() {
    let registry: Result<Option<String>, String> = Ok(Some("\"vigil\" =>\n\"old\" =>\n".to_string()));
    let mods: Result<Option<String>, String> = Ok(Some("pub mod vigil;\n".to_string()));
    let configured = vec![SparkInstall { name: "vigil".to_string(), installed: true }];
    let entries = vec![("vigil".to_string(), true), ("registry".to_string(), true), ("notes.txt".to_string(), false)];
    match validate_and_sync_spark_state(Some(&configured), true, &registry, &mods, Some(&entries)) {
        SparkState::Inconsistent(report) => {
            assert!(report.missing_directories.is_empty());
            assert!(report.incomplete_sparks.is_empty());
            assert!(report.unconfigured_directories.is_empty());
            assert_eq!(report.orphaned_registry_entries, vec!["old".to_string()]);
            assert!(report.orphaned_mod_entries.is_empty());
        },
        other => panic!("unexpected {:?}", other),
    }
    let clean: Result<Option<String>, String> = Ok(Some("\"vigil\" =>\n".to_string()));
    assert!(matches!(
        validate_and_sync_spark_state(Some(&configured), true, &clean, &mods, Some(&entries)),
        SparkState::Consistent
    ));
    assert!(matches!(validate_and_sync_spark_state(None, true, &clean, &mods, None), SparkState::Unchecked));
    assert!(matches!(
        validate_and_sync_spark_state(Some(&configured), false, &clean, &mods, None),
        SparkState::DirectoryMissing
    ));
    let extra = vec![SparkInstall { name: "new".to_string(), installed: false }];
    match validate_and_sync_spark_state(Some(&extra), true, &clean, &mods, Some(&entries)) {
        SparkState::Inconsistent(report) => {
            assert_eq!(report.missing_directories, vec!["new".to_string()]);
            assert_eq!(report.unconfigured_directories, vec!["vigil".to_string()]);
            assert_eq!(report.orphaned_registry_entries, vec!["vigil".to_string()]);
            assert_eq!(report.orphaned_mod_entries, vec!["vigil".to_string()]);
        },
        other => panic!("unexpected {:?}", other),
    }
}

#[test]
fn the_registry_keeps_each_spark_once() {
    let mut reg: Option<SparkRegistry<u8>> = None;
    assert!(get_available_sparks(&reg).is_empty());
    init_registry(&mut reg);
    register_spark(&mut reg, "vigil", 1, true);
    register_spark(&mut reg, "plznohac", 2, false);
    register_spark(&mut reg, "vigil", 3, false);
    assert_eq!(get_available_sparks(&reg), vec!["vigil".to_string()]);
    let r = reg.as_ref().unwrap();
    assert_eq!(r.get_creator("vigil"), Some(&1));
    assert_eq!(r.get_creator("ghost"), None);
    assert!(r.contains("plznohac"));
    assert!(is_known_spark("vigil"));
    assert!(!is_known_spark("ghost"));
}

#[test]
fn unavailable_sparks_are_registered_but_not_offered() {
    let mut reg: Option<SparkRegistry<u8>> = None;
    register_spark(&mut reg, "plznohac", 2, false);
    assert!(get_available_sparks(&reg).is_empty());
    register_spark(&mut reg, "plznohac", 5, true);
    assert!(get_available_sparks(&reg).is_empty());
    assert_eq!(reg.as_ref().unwrap().get_creator("plznohac"), Some(&2));
    register_spark(&mut reg, "vigil", 1, true);
    register_spark(&mut reg, "extra", 4, true);
    assert_eq!(get_available_sparks(&reg), vec!["vigil".to_string(), "extra".to_string()]);
}

#[test]
fn page_components_follow_the_environment() {
    let mut c = None;
    register_head_script(&mut c, "early", "x.js".to_string(), false);
    assert!(c.is_none());
    init_template_registry(&mut c);
    register_head_script(&mut c, "vigil", "v.js".to_string(), false);
    register_head_style(&mut c, "vigil", "v.css".to_string(), true);
    register_meta_tag(&mut c, "seo", "<meta>".to_string(), false);
    register_footer_script(&mut c, "dev", "d.js".to_string(), true);
    let prod = get_template_components(&c, false);
    assert_eq!(prod.head_scripts, vec!["v.js".to_string()]);
    assert!(prod.head_styles.is_empty());
    assert_eq!(prod.meta_tags, vec!["<meta>".to_string()]);
    assert!(prod.footer_scripts.is_empty());
    assert_eq!(prod.active_sparks, vec!["vigil".to_string(), "seo".to_string()]);
    let dev = get_template_components(&c, true);
    assert_eq!(dev.head_styles, vec!["v.css".to_string()]);
    assert_eq!(dev.active_sparks, vec!["vigil".to_string(), "seo".to_string(), "dev".to_string()]);
}

#[test]
fn spark_settings_come_from_environment_overrides_then_defaults() {
    let mut configs = None;
    init_spark_configs(&mut configs);
    register_spark_manifest(
        &mut configs,
        "vigil",
        Some(vec![("enabled".to_string(), ConfigValue::Text("false".to_string()))]),
    );
    assert_eq!(get_spark_config_bool(&configs, "vigil", "enabled", None), Some(false));
    register_spark_overrides(&mut configs, "vigil", Some(vec![("enabled".to_string(), ConfigValue::Boolean(true))]));
    assert_eq!(get_spark_config_bool(&configs, "vigil", "enabled", None), Some(true));
    assert_eq!(get_spark_config_bool(&configs, "vigil", "enabled", Some("false")), Some(false));
    assert_eq!(get_spark_config_bool(&configs, "vigil", "enabled", Some("nope")), Some(true));
    assert_eq!(get_spark_config_bool(&configs, "ghost", "enabled", None), None);
    assert!(enabled_setting(None));
    assert!(!enabled_setting(Some(false)));
    assert_eq!(spark_setting_variable("vigil", "enabled"), "VIGIL_ENABLED");
}

#[test]
fn liftoff_lines_announce_sparks() {
    let f = SparkLoggingFairing;
    assert_eq!(f.liftoff_lines(&vec![], None), vec!["\x1b[38;2;148;22;127m✨ No Sparks\x1b[34m:\x1b[0m Loaded".to_string()]);
    let lines = f.liftoff_lines(&vec!["vigil".to_string()], Some(&vec![Some("Watches".to_string())]));
    assert_eq!(lines.len(), 2);
    assert!(lines[1].contains("vigil"));
    assert!(lines[1].contains("(Watches)"));
    let lines = f.liftoff_lines(&vec!["x".to_string()], Some(&vec![None]));
    assert!(lines[1].contains("(unknown description)"));
}

#[test]
fn phases_have_names() {
    assert_eq!(BootstrapPhase::PreConfig.name(), "pre_config");
    assert_eq!(BootstrapPhase::PostBootstrap.name(), "post_bootstrap");
}
