//! Spark manifests: their TOML text parsed, the `[spark]` section and the
//! `[config.defaults]` table read from the result, and the manifests of the
//! configured sparks loaded into the spark settings. The caller reads the
//! files; these functions parse and read what was read.
use vstd::prelude::*;

use crate::spark_state::{ManifestRead, SparkSection};
use crate::sparks::{
    config_of, empty_table, register_spark_manifest, register_spark_overrides, ConfigTable, ConfigValue, SparkConfig,
    SparkConfigs,
};
use crate::text::{opt_string_view, str_eq, strings_view};

verus! {

// ---------------------------------------------------------------------------
// TOML documents
// ---------------------------------------------------------------------------

/// A TOML value as plain values; a float and a date-time are kept by their
/// text, and a table by its entries in the parser's order.
#[derive(Debug)]
pub enum TomlValue {
    Text(String),
    Integer(i64),
    Float(String),
    Boolean(bool),
    Datetime(String),
    Array(Vec<TomlValue>),
    Table(Vec<(String, TomlValue)>),
}

/// A TOML value, viewed.
pub enum TomlView {
    Text(Seq<char>),
    Integer(i64),
    Float(Seq<char>),
    Boolean(bool),
    Datetime(Seq<char>),
    Array(Seq<TomlView>),
    Table(Seq<(Seq<char>, TomlView)>),
}

/// The view of a TOML value.
pub open spec fn toml_view(v: TomlValue) -> TomlView
    decreases v,
{
    match v {
        TomlValue::Text(s) => TomlView::Text(s@),
        TomlValue::Integer(i) => TomlView::Integer(i),
        TomlValue::Float(s) => TomlView::Float(s@),
        TomlValue::Boolean(b) => TomlView::Boolean(b),
        TomlValue::Datetime(s) => TomlView::Datetime(s@),
        TomlValue::Array(items) => TomlView::Array(
            Seq::new(
                items@.len(),
                |i: int|
                    if 0 <= i < items@.len() {
                        toml_view(items@[i])
                    } else {
                        TomlView::Boolean(false)
                    },
            ),
        ),
        TomlValue::Table(entries) => TomlView::Table(
            Seq::new(
                entries@.len(),
                |i: int|
                    if 0 <= i < entries@.len() {
                        (entries@[i].0@, toml_view(entries@[i].1))
                    } else {
                        (Seq::empty(), TomlView::Boolean(false))
                    },
            ),
        ),
    }
}

/// What `toml::from_str::<toml::Value>` makes of a text: the document, by its
/// view, or the description of why the text is not TOML.
pub uninterp spec fn toml_document(text: Seq<char>) -> Result<TomlView, Seq<char>>;

#[verifier::external_type_specification]
#[verifier::external_body]
pub struct ExTomlValue(toml::Value);

/// `toml::from_str::<toml::Value>`: parses a TOML text. Its result is named
/// `toml_document`: the parsed value in its plain form, or the `Display` text
/// of the parse error. The grammar of TOML is not restated.
#[verifier::external_body]
fn parse_toml(text: &str) -> (r: Result<TomlValue, String>)
    ensures
        match r {
            Ok(v) => toml_document(text@) == Ok::<TomlView, Seq<char>>(toml_view(v)),
            Err(e) => toml_document(text@) == Err::<TomlView, Seq<char>>(e@),
        },
{
    match toml::from_str::<toml::Value>(text) {
        Ok(v) => Ok(plain_toml(v)),
        Err(e) => Err(e.to_string()),
    }
}

/// The plain form of a `toml::Value`, variant for variant: a float and a
/// date-time by their `Display` text, an array and a table element by element.
#[verifier::external_body]
fn plain_toml(v: toml::Value) -> TomlValue {
    match v {
        toml::Value::String(s) => TomlValue::Text(s),
        toml::Value::Integer(i) => TomlValue::Integer(i),
        toml::Value::Float(x) => TomlValue::Float(x.to_string()),
        toml::Value::Boolean(b) => TomlValue::Boolean(b),
        toml::Value::Datetime(d) => TomlValue::Datetime(d.to_string()),
        toml::Value::Array(a) => TomlValue::Array(a.into_iter().map(plain_toml).collect()),
        toml::Value::Table(t) => TomlValue::Table(t.into_iter().map(|(k, x)| (k, plain_toml(x))).collect()),
    }
}

/// The value of the first entry named `key`.
pub open spec fn table_entry(t: Seq<(Seq<char>, TomlView)>, key: Seq<char>) -> Option<TomlView>
    decreases t.len(),
{
    if t.len() == 0 {
        None
    } else if t[0].0 == key {
        Some(t[0].1)
    } else {
        table_entry(t.drop_first(), key)
    }
}

/// The value under `key` of a table; nothing for any other value.
pub open spec fn toml_get(v: TomlView, key: Seq<char>) -> Option<TomlView> {
    match v {
        TomlView::Table(t) => table_entry(t, key),
        _ => None,
    }
}

/// The value under `key` of a table value, if any.
fn toml_get_exec<'a>(v: &'a TomlValue, key: &str) -> (r: Option<&'a TomlValue>)
    ensures
        match r {
            Some(x) => toml_get(toml_view(*v), key@) == Some(toml_view(*x)),
            None => toml_get(toml_view(*v), key@) is None,
        },
{
    match v {
        TomlValue::Table(entries) => {
            let ghost t = match toml_view(*v) {
                TomlView::Table(t) => t,
                _ => Seq::empty(),
            };
            assert(t.len() == entries@.len());
            assert(t.subrange(0, t.len() as int) =~= t);
            let mut i: usize = 0;
            while i < entries.len()
                invariant
                    i <= entries@.len(),
                    t.len() == entries@.len(),
                    toml_view(*v) == TomlView::Table(t),
                    *v == TomlValue::Table(*entries),
                    forall|k: int| 0 <= k < t.len() ==> #[trigger] t[k] == (entries@[k].0@, toml_view(entries@[k].1)),
                    table_entry(t, key@) == table_entry(t.subrange(i as int, t.len() as int), key@),
                decreases entries@.len() - i,
            {
                let ghost rest = t.subrange(i as int, t.len() as int);
                assert(rest[0] == t[i as int]);
                if str_eq(entries[i].0.as_str(), key) {
                    return Some(&entries[i].1);
                }
                assert(rest.drop_first() =~= t.subrange(i + 1, t.len() as int));
                i = i + 1;
            }
            assert(t.subrange(i as int, t.len() as int) =~= Seq::<(Seq<char>, TomlView)>::empty());
            None
        },
        _ => None,
    }
}

// ---------------------------------------------------------------------------
// Manifests
// ---------------------------------------------------------------------------

/// A string value's text; nothing for any other value.
pub open spec fn toml_text(v: TomlView) -> Option<Seq<char>> {
    match v {
        TomlView::Text(s) => Some(s),
        _ => None,
    }
}

/// The `[spark]` section read from a manifest's value under `spark`: missing,
/// not a table, or its fields, each with its text when it is a string.
pub open spec fn section_read(sec: SparkSection, v: Option<TomlView>) -> bool {
    match v {
        None => sec is Missing,
        Some(TomlView::Table(t)) => sec matches SparkSection::Table(f) && f@.len() == t.len() && forall|i: int|
            0 <= i < t.len() ==> (#[trigger] f@[i]).0@ == t[i].0 && opt_string_view(f@[i].1) == toml_text(t[i].1),
        Some(_) => sec is NotTable,
    }
}

/// What a manifest's text gives: its parse error, or its `[spark]` section.
pub open spec fn manifest_read(m: ManifestRead, text: Seq<char>) -> bool {
    match toml_document(text) {
        Err(e) => m matches ManifestRead::Unparsable(x) && x@ == e,
        Ok(doc) => m matches ManifestRead::Parsed(sec) && section_read(sec, toml_get(doc, "spark"@)),
    }
}

/// The `[spark]` section of a parsed manifest.
fn spark_section(doc: &TomlValue) -> (r: SparkSection)
    ensures
        section_read(r, toml_get(toml_view(*doc), "spark"@)),
{
    match toml_get_exec(doc, "spark") {
        None => SparkSection::Missing,
        Some(TomlValue::Table(entries)) => {
            let ghost t = match toml_view(TomlValue::Table(*entries)) {
                TomlView::Table(t) => t,
                _ => Seq::empty(),
            };
            let mut fields: Vec<(String, Option<String>)> = Vec::new();
            let mut i: usize = 0;
            while i < entries.len()
                invariant
                    i <= entries@.len(),
                    t.len() == entries@.len(),
                    forall|k: int| 0 <= k < t.len() ==> #[trigger] t[k] == (entries@[k].0@, toml_view(entries@[k].1)),
                    fields@.len() == i,
                    forall|k: int|
                        0 <= k < i ==> (#[trigger] fields@[k]).0@ == t[k].0 && opt_string_view(fields@[k].1)
                            == toml_text(t[k].1),
                decreases entries@.len() - i,
            {
                let text = match &entries[i].1 {
                    TomlValue::Text(s) => Some(s.clone()),
                    _ => None,
                };
                assert(t[i as int] == (entries@[i as int].0@, toml_view(entries@[i as int].1)));
                fields.push((entries[i].0.clone(), text));
                i = i + 1;
            }
            SparkSection::Table(fields)
        },
        Some(_) => SparkSection::NotTable,
    }
}

/// Parses a manifest's text: a parse error is kept with its description,
/// else the `[spark]` section is read.
pub fn parse_manifest_text(text: &str) -> (r: ManifestRead)
    ensures
        manifest_read(r, text@),
{
    match parse_toml(text) {
        Err(e) => ManifestRead::Unparsable(e),
        Ok(doc) => ManifestRead::Parsed(spark_section(&doc)),
    }
}

/// What reading a manifest file gave: the read failure's description, or
/// what its text parses to.
pub fn read_manifest(contents: &Result<String, String>) -> (r: ManifestRead)
    ensures
        match contents {
            Err(e) => r matches ManifestRead::Unreadable(x) && x@ == e@,
            Ok(text) => manifest_read(r, text@),
        },
{
    match contents {
        Err(e) => ManifestRead::Unreadable(e.clone()),
        Ok(text) => parse_manifest_text(text.as_str()),
    }
}

// ---------------------------------------------------------------------------
// Defaults
// ---------------------------------------------------------------------------

/// A setting read from a TOML value: a string, an integer, a float by its
/// text, a boolean, or anything else.
pub open spec fn setting_read(c: ConfigValue, v: TomlView) -> bool {
    match v {
        TomlView::Text(s) => c matches ConfigValue::Text(x) && x@ == s,
        TomlView::Integer(i) => c matches ConfigValue::Integer(j) && j == i,
        TomlView::Float(s) => c matches ConfigValue::Float(x) && x@ == s,
        TomlView::Boolean(b) => c matches ConfigValue::Boolean(x) && x == b,
        _ => c is Other,
    }
}

/// A table of settings read from a TOML value: its entries in order when it
/// is a table, `None` for any other value.
pub open spec fn table_read(c: ConfigTable, v: TomlView) -> bool {
    match v {
        TomlView::Table(t) => c matches Some(e) && e@.len() == t.len() && forall|i: int|
            0 <= i < t.len() ==> (#[trigger] e@[i]).0@ == t[i].0 && setting_read(e@[i].1, t[i].1),
        _ => c is None,
    }
}

/// The defaults a parsed manifest declares: its `config.defaults` value, or an
/// empty table when it has none.
pub open spec fn defaults_value(doc: TomlView) -> TomlView {
    match toml_get(doc, "config"@) {
        Some(c) => match toml_get(c, "defaults"@) {
            Some(d) => d,
            None => TomlView::Table(seq![]),
        },
        None => TomlView::Table(seq![]),
    }
}

/// A setting read from a TOML value.
fn setting_of(v: &TomlValue) -> (r: ConfigValue)
    ensures
        setting_read(r, toml_view(*v)),
{
    match v {
        TomlValue::Text(s) => ConfigValue::Text(s.clone()),
        TomlValue::Integer(i) => ConfigValue::Integer(*i),
        TomlValue::Float(s) => ConfigValue::Float(s.clone()),
        TomlValue::Boolean(b) => ConfigValue::Boolean(*b),
        _ => ConfigValue::Other,
    }
}

/// The settings table of a TOML value.
fn table_of(v: &TomlValue) -> (r: ConfigTable)
    ensures
        table_read(r, toml_view(*v)),
{
    match v {
        TomlValue::Table(entries) => {
            let ghost t = match toml_view(*v) {
                TomlView::Table(t) => t,
                _ => Seq::empty(),
            };
            let mut out: Vec<(String, ConfigValue)> = Vec::new();
            let mut i: usize = 0;
            while i < entries.len()
                invariant
                    i <= entries@.len(),
                    t.len() == entries@.len(),
                    toml_view(*v) == TomlView::Table(t),
                    forall|k: int| 0 <= k < t.len() ==> #[trigger] t[k] == (entries@[k].0@, toml_view(entries@[k].1)),
                    out@.len() == i,
                    forall|k: int|
                        0 <= k < i ==> (#[trigger] out@[k]).0@ == t[k].0 && setting_read(out@[k].1, t[k].1),
                decreases entries@.len() - i,
            {
                let c = setting_of(&entries[i].1);
                assert(t[i as int] == (entries@[i as int].0@, toml_view(entries@[i as int].1)));
                out.push((entries[i].0.clone(), c));
                i = i + 1;
            }
            Some(out)
        },
        _ => None,
    }
}

/// The defaults a parsed manifest declares, as settings.
pub fn manifest_defaults(doc: &TomlValue) -> (r: ConfigTable)
    ensures
        table_read(r, defaults_value(toml_view(*doc))),
{
    let defaults = match toml_get_exec(doc, "config") {
        Some(c) => toml_get_exec(c, "defaults"),
        None => None,
    };
    match defaults {
        Some(d) => table_of(d),
        None => {
            let out: Vec<(String, ConfigValue)> = Vec::new();
            Some(out)
        },
    }
}

// ---------------------------------------------------------------------------
// Loading
// ---------------------------------------------------------------------------

/// A spark's settings after its manifest loaded: the manifest's defaults,
/// and the configured overrides when there are any, else those it had (none
/// for a spark new to the settings).
pub open spec fn loaded_config(
    before: Option<SparkConfig>,
    after: Option<SparkConfig>,
    doc: TomlView,
    overrides: Option<ConfigTable>,
) -> bool {
    after matches Some(c) && table_read(c.defaults, defaults_value(doc)) && match overrides {
        Some(o) => table_entries(c.overrides) == table_entries(o),
        None => match before {
            Some(prev) => c.overrides == prev.overrides,
            None => empty_table(c.overrides),
        },
    }
}

/// The settings after loading a parsed manifest for `name`: without settings
/// nothing changes; otherwise only `name`'s settings change, as
/// `loaded_config` says.
pub open spec fn settings_loaded(
    before: Option<SparkConfigs>,
    after: Option<SparkConfigs>,
    name: Seq<char>,
    doc: TomlView,
    overrides: Option<ConfigTable>,
) -> bool {
    match before {
        None => after is None,
        Some(o) => after matches Some(n) && (forall|x: Seq<char>|
            x != name ==> #[trigger] config_of(n@, x) == config_of(o@, x)) && loaded_config(
            config_of(o@, name),
            config_of(n@, name),
            doc,
            overrides,
        ),
    }
}

/// Loads a spark's manifest text into the settings: its defaults, then the
/// overrides the application configures for it, if any. A text that is not
/// TOML loads nothing, and its parse error is returned.
pub fn load_manifest(
    configs: &mut Option<SparkConfigs>,
    spark_name: &str,
    text: &str,
    overrides: Option<ConfigTable>,
) -> (r: Result<(), String>)
    ensures
        match toml_document(text@) {
            Err(e) => r matches Err(x) && x@ == e && *final(configs) == *old(configs),
            Ok(doc) => r is Ok && settings_loaded(*old(configs), *final(configs), spark_name@, doc, overrides),
        },
{
    let doc = match parse_toml(text) {
        Err(e) => {
            return Err(e);
        },
        Ok(doc) => doc,
    };
    let defaults = manifest_defaults(&doc);
    let ghost start = *configs;
    register_spark_manifest(configs, spark_name, defaults);
    let ghost mid = *configs;
    match overrides {
        Some(o) => {
            register_spark_overrides(configs, spark_name, o);
            proof {
                if let Some(oc) = start {
                    assert forall|x: Seq<char>| x != spark_name@ implies #[trigger] config_of(configs->0@, x)
                        == config_of(oc@, x) by {
                        assert(config_of(configs->0@, x) == config_of(mid->0@, x));
                    }
                }
            }
        },
        None => {},
    }
    Ok(())
}

/// A configured spark's manifest as found on disk: its name, its text (`None`
/// when the spark has no directory or no manifest, a description of the read
/// failure when it could not be read), and the overrides the application
/// configures for it, if any.
#[derive(Debug)]
pub struct ManifestSource {
    pub name: String,
    pub text: Option<Result<String, String>>,
    pub overrides: Option<ConfigTable>,
}

/// The document of a source whose text was read and parses.
pub open spec fn source_document(s: ManifestSource) -> Option<TomlView> {
    match s.text {
        Some(Ok(t)) => match toml_document(t@) {
            Ok(doc) => Some(doc),
            Err(_) => None,
        },
        _ => None,
    }
}

/// The sparks whose manifest loaded, in order.
pub open spec fn loaded_manifests(s: Seq<ManifestSource>) -> Seq<Seq<char>>
    decreases s.len(),
{
    if s.len() == 0 {
        seq![]
    } else if source_document(s.last()) is Some {
        loaded_manifests(s.drop_last()).push(s.last().name@)
    } else {
        loaded_manifests(s.drop_last())
    }
}

/// The names of the sources.
pub open spec fn source_names(s: Seq<ManifestSource>) -> Seq<Seq<char>> {
    s.map_values(|m: ManifestSource| m.name@)
}

/// A source's spark after loading: its settings loaded from its manifest when
/// that parses, else unchanged.
pub open spec fn source_loaded(before: Seq<(String, SparkConfig)>, after: Seq<(String, SparkConfig)>, s: ManifestSource) -> bool {
    match source_document(s) {
        Some(doc) => loaded_config(config_of(before, s.name@), config_of(after, s.name@), doc, s.overrides),
        None => config_of(after, s.name@) == config_of(before, s.name@),
    }
}

/// Loads the manifests of the configured sparks (each named once) into the
/// settings, and returns the sparks whose manifest loaded, to be registered.
/// Without settings, only the names are returned.
pub fn load_spark_manifests(configs: &mut Option<SparkConfigs>, sources: Vec<ManifestSource>) -> (r: Vec<String>)
    requires
        source_names(sources@).no_duplicates(),
    ensures
        strings_view(r@) == loaded_manifests(sources@),
        match *old(configs) {
            None => *final(configs) is None,
            Some(o) => *final(configs) matches Some(n) && (forall|k: int|
                0 <= k < sources@.len() ==> source_loaded(o@, n@, #[trigger] sources@[k])) && (forall|x: Seq<char>|
                !source_names(sources@).contains(x) ==> #[trigger] config_of(n@, x) == config_of(o@, x)),
        },
{
    let ghost all = sources@;
    let ghost start = *configs;
    let mut out: Vec<String> = Vec::new();
    let mut i: usize = 0;
    while i < sources.len()
        invariant
            i <= all.len(),
            sources@ == all,
            source_names(all).no_duplicates(),
            strings_view(out@) == loaded_manifests(all.subrange(0, i as int)),
            match start {
                None => *configs is None,
                Some(o) => *configs matches Some(n) && (forall|k: int|
                    0 <= k < i ==> source_loaded(o@, n@, #[trigger] all[k])) && (forall|x: Seq<char>|
                    !source_names(all.subrange(0, i as int)).contains(x) ==> #[trigger] config_of(n@, x) == config_of(
                        o@,
                        x,
                    )),
            },
        decreases all.len() - i,
    {
        proof {
            assert(all.subrange(0, i + 1).drop_last() =~= all.subrange(0, i as int));
            assert(all.subrange(0, i + 1).last() == all[i as int]);
        }
        let ghost before = *configs;
        let s = &sources[i];
        let loaded = match &s.text {
            Some(Ok(text)) => {
                let overrides = match &s.overrides {
                    None => None,
                    Some(t) => Some(clone_table(t)),
                };
                load_manifest(configs, s.name.as_str(), text.as_str(), overrides).is_ok()
            },
            _ => false,
        };
        proof {
            lemma_names_distinct(all, i as int);
            if let Some(o) = start {
                let n = configs->0@;
                let b = before->0@;
                assert forall|k: int| 0 <= k < i + 1 implies source_loaded(o@, n, #[trigger] all[k]) by {
                    if k < i {
                        assert(all[k].name@ != all[i as int].name@);
                        assert(config_of(n, all[k].name@) == config_of(b, all[k].name@));
                    } else {
                        assert(!source_names(all.subrange(0, i as int)).contains(all[i as int].name@));
                        assert(config_of(b, all[i as int].name@) == config_of(o@, all[i as int].name@));
                    }
                }
                assert forall|x: Seq<char>| !source_names(all.subrange(0, i + 1)).contains(x) implies #[trigger] config_of(
                    n,
                    x,
                ) == config_of(o@, x) by {
                    assert(source_names(all.subrange(0, i + 1))[i as int] == all[i as int].name@);
                    if source_names(all.subrange(0, i as int)).contains(x) {
                        let j = choose|j: int|
                            0 <= j < source_names(all.subrange(0, i as int)).len() && source_names(
                                all.subrange(0, i as int),
                            )[j] == x;
                        assert(source_names(all.subrange(0, i + 1))[j] == x);
                    }
                    assert(x != all[i as int].name@);
                    assert(config_of(n, x) == config_of(b, x));
                }
            }
        }
        if loaded {
            let ghost prev = strings_view(out@);
            out.push(s.name.clone());
            assert(strings_view(out@) =~= prev.push(all[i as int].name@));
        }
        i = i + 1;
    }
    assert(all.subrange(0, all.len() as int) =~= all);
    out
}

/// Distinct names: the `i`-th source's name is no other source's.
proof fn lemma_names_distinct(all: Seq<ManifestSource>, i: int)
    requires
        source_names(all).no_duplicates(),
        0 <= i < all.len(),
    ensures
        forall|k: int| 0 <= k < all.len() && k != i ==> (#[trigger] all[k]).name@ != all[i].name@,
        !source_names(all.subrange(0, i)).contains(all[i].name@),
{
    let names = source_names(all);
    assert forall|k: int| 0 <= k < all.len() && k != i implies (#[trigger] all[k]).name@ != all[i].name@ by {
        assert(names[k] == all[k].name@ && names[i] == all[i].name@);
    }
    if source_names(all.subrange(0, i)).contains(all[i].name@) {
        let j = choose|j: int| 0 <= j < i && source_names(all.subrange(0, i))[j] == all[i].name@;
        assert(source_names(all.subrange(0, i))[j] == all[j].name@);
    }
}

/// The entries of a settings table, `None` for a value that is not a table.
pub open spec fn table_entries(t: ConfigTable) -> Option<Seq<(String, ConfigValue)>> {
    match t {
        Some(v) => Some(v@),
        None => None,
    }
}

/// A copy of a settings table.
fn clone_table(t: &ConfigTable) -> (r: ConfigTable)
    ensures
        table_entries(r) == table_entries(*t),
{
    match t {
        None => None,
        Some(v) => {
            let mut out: Vec<(String, ConfigValue)> = Vec::new();
            let mut i: usize = 0;
            while i < v.len()
                invariant
                    i <= v@.len(),
                    out@.len() == i,
                    forall|k: int| 0 <= k < i ==> out@[k] == v@[k],
                decreases v@.len() - i,
            {
                out.push((v[i].0.clone(), clone_value(&v[i].1)));
                i = i + 1;
            }
            assert(out@ =~= v@);
            Some(out)
        },
    }
}

/// A copy of a setting.
fn clone_value(c: &ConfigValue) -> (r: ConfigValue)
    ensures
        r == *c,
{
    match c {
        ConfigValue::Text(s) => ConfigValue::Text(s.clone()),
        ConfigValue::Integer(i) => ConfigValue::Integer(*i),
        ConfigValue::Float(s) => ConfigValue::Float(s.clone()),
        ConfigValue::Boolean(b) => ConfigValue::Boolean(*b),
        ConfigValue::Other => ConfigValue::Other,
    }
}

} // verus!
