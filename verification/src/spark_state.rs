//! Start-up checks of the installed sparks against the configuration: every
//! configured spark installed with a valid manifest, registered and declared
//! as a module, and nothing installed, registered or declared that is not
//! configured. The caller reads the files; these functions judge what was read.
use vstd::prelude::*;

use crate::text::{
    chars_of, contains, ends_with, find, find_exec, has_string, lines, lines_exec, slice_vec, starts_with,
    starts_with_exec, str_contains, str_eq, string_of, strings_view, trim, trim_exec, vec_has_str,
};

verus! {

// ---------------------------------------------------------------------------
// Manifests
// ---------------------------------------------------------------------------

/// The `[spark]` section of a parsed manifest: absent, not a table, or a
/// table of fields (each a string value, or `None` for any other value).
#[derive(Debug)]
pub enum SparkSection {
    Missing,
    NotTable,
    Table(Vec<(String, Option<String>)>),
}

/// What reading a spark's `manifest.toml` gave: a read failure, a parse
/// failure (each with its description), or its `[spark]` section.
#[derive(Debug)]
pub enum ManifestRead {
    Unreadable(String),
    Unparsable(String),
    Parsed(SparkSection),
}

/// The fields every manifest's `[spark]` section must hold as strings.
pub open spec fn required_fields() -> Seq<Seq<char>> {
    seq!["name"@, "version"@, "description"@, "author"@]
}

/// The value of the first field named `k`: `None` when there is none,
/// `Some(None)` when it is not a string.
pub open spec fn field_value(t: Seq<(String, Option<String>)>, k: Seq<char>) -> Option<Option<Seq<char>>>
    decreases t.len(),
{
    if t.len() == 0 {
        None
    } else if t[0].0@ == k {
        Some(
            match t[0].1 {
                Some(s) => Some(s@),
                None => None,
            },
        )
    } else {
        field_value(t.drop_first(), k)
    }
}

/// The complaint about the first required field that is missing or not a
/// string, in the order of `fields`.
pub open spec fn check_fields(t: Seq<(String, Option<String>)>, fields: Seq<Seq<char>>) -> Result<(), Seq<char>>
    decreases fields.len(),
{
    if fields.len() == 0 {
        Ok(())
    } else {
        match field_value(t, fields[0]) {
            None => Err("Missing required field '"@ + fields[0] + "' in [spark] section"@),
            Some(None) => Err("Field '"@ + fields[0] + "' must be a string"@),
            Some(Some(_)) => check_fields(t, fields.drop_first()),
        }
    }
}

/// Whether a manifest is valid for the spark installed under `spark_name`,
/// and the complaint when it is not.
pub open spec fn manifest_verdict(m: ManifestRead, spark_name: Seq<char>) -> Result<(), Seq<char>> {
    match m {
        ManifestRead::Unreadable(e) => Err("Failed to read manifest.toml: "@ + e@),
        ManifestRead::Unparsable(e) => Err("Failed to parse manifest.toml: "@ + e@),
        ManifestRead::Parsed(SparkSection::Missing) => Err("Missing [spark] section in manifest.toml"@),
        ManifestRead::Parsed(SparkSection::NotTable) => Err("[spark] section must be a table"@),
        ManifestRead::Parsed(SparkSection::Table(t)) => match check_fields(t@, required_fields()) {
            Err(e) => Err(e),
            Ok(()) => match field_value(t@, "name"@) {
                Some(Some(n)) => if n != spark_name {
                    Err(
                        "Spark name mismatch: directory name '"@ + spark_name + "' does not match manifest name '"@ + n
                            + "'"@,
                    )
                } else {
                    Ok(())
                },
                _ => Ok(()),
            },
        },
    }
}

fn field_value_exec(t: &Vec<(String, Option<String>)>, k: &str) -> (r: Option<Option<String>>)
    ensures
        field_value(t@, k@) == match r {
            Some(Some(s)) => Some(Some(s@)),
            Some(None) => Some(None),
            None => None::<Option<Seq<char>>>,
        },
{
    let mut i: usize = 0;
    assert(t@.subrange(0, t@.len() as int) =~= t@);
    while i < t.len()
        invariant
            i <= t@.len(),
            field_value(t@, k@) == field_value(t@.subrange(i as int, t@.len() as int), k@),
        decreases t@.len() - i,
    {
        let ghost rest = t@.subrange(i as int, t@.len() as int);
        if str_eq(t[i].0.as_str(), k) {
            assert(rest[0] == t@[i as int]);
            return match &t[i].1 {
                Some(s) => Some(Some(s.clone())),
                None => Some(None),
            };
        }
        assert(rest.drop_first() =~= t@.subrange(i + 1, t@.len() as int));
        i = i + 1;
    }
    assert(t@.subrange(i as int, t@.len() as int) =~= Seq::<(String, Option<String>)>::empty());
    None
}

/// Checks a spark's manifest: it must be readable and parsable, have a
/// `[spark]` table whose name, version, description and author are strings,
/// and name the spark it is installed as.
pub fn validate_spark_manifest(manifest: &ManifestRead, spark_name: &str) -> (r: Result<(), String>)
    ensures
        match manifest_verdict(*manifest, spark_name@) {
            Ok(()) => r is Ok,
            Err(e) => r matches Err(x) && x@ == e,
        },
{
    match manifest {
        ManifestRead::Unreadable(e) => Err(String::from_str("Failed to read manifest.toml: ").concat(e.as_str())),
        ManifestRead::Unparsable(e) => Err(String::from_str("Failed to parse manifest.toml: ").concat(e.as_str())),
        ManifestRead::Parsed(SparkSection::Missing) => Err(String::from_str("Missing [spark] section in manifest.toml")),
        ManifestRead::Parsed(SparkSection::NotTable) => Err(String::from_str("[spark] section must be a table")),
        ManifestRead::Parsed(SparkSection::Table(t)) => {
            let fields: [&str; 4] = ["name", "version", "description", "author"];
            let ghost req = required_fields();
            proof {
                assert(req.drop_first() =~= seq!["version"@, "description"@, "author"@]);
            }
            let mut i: usize = 0;
            assert(required_fields().subrange(0, 4) =~= required_fields());
            while i < 4
                invariant
                    i <= 4,
                    fields@.len() == 4,
                    fields@[0]@ == "name"@,
                    fields@[1]@ == "version"@,
                    fields@[2]@ == "description"@,
                    fields@[3]@ == "author"@,
                    check_fields(t@, required_fields()) == check_fields(t@, required_fields().subrange(i as int, 4)),
                    check_fields(t@, required_fields()) is Err ==> manifest_verdict(*manifest, spark_name@)
                        == check_fields(t@, required_fields()),
                decreases 4 - i,
            {
                let f = fields[i];
                let ghost rest = required_fields().subrange(i as int, 4);
                assert(rest[0] == f@);
                assert(rest.drop_first() =~= required_fields().subrange(i + 1, 4));
                match field_value_exec(t, f) {
                    None => {
                        let msg = String::from_str("Missing required field '").concat(f).concat("' in [spark] section");
                        assert(check_fields(t@, rest) == Err::<(), Seq<char>>(msg@));
                        return Err(msg);
                    },
                    Some(None) => {
                        let msg = String::from_str("Field '").concat(f).concat("' must be a string");
                        assert(check_fields(t@, rest) == Err::<(), Seq<char>>(msg@));
                        return Err(msg);
                    },
                    Some(Some(_)) => {},
                }
                i = i + 1;
            }
            assert(required_fields().subrange(0, 4) =~= required_fields());
            match field_value_exec(t, "name") {
                Some(Some(n)) => {
                    if !str_eq(n.as_str(), spark_name) {
                        return Err(
                            String::from_str("Spark name mismatch: directory name '").concat(spark_name).concat(
                                "' does not match manifest name '",
                            ).concat(n.as_str()).concat("'"),
                        );
                    }
                    Ok(())
                },
                _ => Ok(()),
            }
        },
    }
}

// ---------------------------------------------------------------------------
// Configured sparks
// ---------------------------------------------------------------------------

/// A configured spark as found on disk: its name, where it comes from (the
/// configured URL, or `unknown`), whether its directory exists, and what its
/// manifest gave (`None` when there is no `manifest.toml`).
#[derive(Debug)]
pub struct ConfiguredSpark {
    pub name: String,
    pub source: String,
    pub dir_exists: bool,
    pub manifest: Option<ManifestRead>,
}

/// The outcome of checking the configured sparks; every outcome but `Valid`
/// and `NoneConfigured` stops the start-up.
#[derive(Debug)]
pub enum SparkCheck {
    NoneConfigured,
    Valid,
    /// Configured but not installed: name and source.
    Missing(Vec<(String, String)>),
    /// Installed without a valid manifest.
    Invalid(Vec<String>),
}

/// The configured sparks without a directory, with their sources.
pub open spec fn missing_sparks(c: Seq<ConfiguredSpark>) -> Seq<(Seq<char>, Seq<char>)>
    decreases c.len(),
{
    if c.len() == 0 {
        seq![]
    } else {
        let rest = missing_sparks(c.drop_last());
        if !c.last().dir_exists {
            rest.push((c.last().name@, c.last().source@))
        } else {
            rest
        }
    }
}

/// An installed spark's manifest is missing or invalid.
pub open spec fn manifest_invalid(s: ConfiguredSpark) -> bool {
    match s.manifest {
        None => true,
        Some(m) => manifest_verdict(m, s.name@) is Err,
    }
}

/// The installed sparks without a valid manifest.
pub open spec fn invalid_sparks(c: Seq<ConfiguredSpark>) -> Seq<Seq<char>>
    decreases c.len(),
{
    if c.len() == 0 {
        seq![]
    } else {
        let rest = invalid_sparks(c.drop_last());
        if c.last().dir_exists && manifest_invalid(c.last()) {
            rest.push(c.last().name@)
        } else {
            rest
        }
    }
}

/// Checks the configured sparks: none configured is fine; any not installed
/// stops the start-up first; then any installed with a missing or invalid
/// manifest does.
pub fn validate_configured_sparks(configured: &Vec<ConfiguredSpark>) -> (r: SparkCheck)
    ensures
        configured@.len() == 0 ==> (r is NoneConfigured),
        configured@.len() > 0 && missing_sparks(configured@).len() > 0 ==> (r matches SparkCheck::Missing(m)
            && crate::meltdown::entries_view(m@) == missing_sparks(configured@)),
        configured@.len() > 0 && missing_sparks(configured@).len() == 0 && invalid_sparks(configured@).len() > 0
            ==> (r matches SparkCheck::Invalid(v) && strings_view(v@) == invalid_sparks(configured@)),
        configured@.len() > 0 && missing_sparks(configured@).len() == 0 && invalid_sparks(configured@).len() == 0
            ==> (r is Valid),
{
    if configured.len() == 0 {
        return SparkCheck::NoneConfigured;
    }
    let mut missing: Vec<(String, String)> = Vec::new();
    let mut invalid: Vec<String> = Vec::new();
    let mut i: usize = 0;
    while i < configured.len()
        invariant
            i <= configured@.len(),
            crate::meltdown::entries_view(missing@) == missing_sparks(configured@.subrange(0, i as int)),
            strings_view(invalid@) == invalid_sparks(configured@.subrange(0, i as int)),
        decreases configured@.len() - i,
    {
        let s = &configured[i];
        proof {
            let p = configured@.subrange(0, i + 1);
            assert(p.drop_last() =~= configured@.subrange(0, i as int));
            assert(p.last() == configured@[i as int]);
        }
        if !s.dir_exists {
            let ghost before = crate::meltdown::entries_view(missing@);
            missing.push((s.name.clone(), s.source.clone()));
            assert(crate::meltdown::entries_view(missing@) =~= before.push((s.name@, s.source@)));
        } else {
            let bad = match &s.manifest {
                None => true,
                Some(m) => validate_spark_manifest(m, s.name.as_str()).is_err(),
            };
            if bad {
                let ghost before = strings_view(invalid@);
                invalid.push(s.name.clone());
                assert(strings_view(invalid@) =~= before.push(s.name@));
            }
        }
        i = i + 1;
    }
    assert(configured@.subrange(0, configured@.len() as int) =~= configured@);
    if missing.len() > 0 {
        SparkCheck::Missing(missing)
    } else if invalid.len() > 0 {
        SparkCheck::Invalid(invalid)
    } else {
        SparkCheck::Valid
    }
}

// ---------------------------------------------------------------------------
// Registry and module declarations
// ---------------------------------------------------------------------------

/// How a spark's match arm appears in `registry.rs`: `"<name>" =>`.
pub open spec fn registry_pattern(name: Seq<char>) -> Seq<char> {
    "\""@ + name + "\" =>"@
}

/// How a spark's module is declared in `mod.rs`: `pub mod <name>;`.
pub open spec fn module_line(name: Seq<char>) -> Seq<char> {
    "pub mod "@ + name + ";"@
}

/// What reading an optional file gave: its contents, `None` when it does not
/// exist, or the description of a read failure.
pub open spec fn file_view(f: Result<Option<String>, String>) -> Result<Option<Seq<char>>, Seq<char>> {
    match f {
        Ok(Some(c)) => Ok(Some(c@)),
        Ok(None) => Ok(None),
        Err(e) => Err(e@),
    }
}

/// A file that was read holds `pattern`; a missing or unreadable file holds nothing.
pub open spec fn file_holds(f: Result<Option<Seq<char>>, Seq<char>>, pattern: Seq<char>) -> bool {
    match f {
        Ok(Some(c)) => contains(c, pattern),
        _ => false,
    }
}

/// Whether `registry.rs` has a match arm for the spark.
pub fn check_spark_in_registry(registry: &Result<Option<String>, String>, spark_name: &str) -> (r: bool)
    ensures
        r == file_holds(file_view(*registry), registry_pattern(spark_name@)),
{
    match registry {
        Ok(Some(c)) => {
            let p = String::from_str("\"").concat(spark_name).concat("\" =>");
            str_contains(c.as_str(), p.as_str())
        },
        _ => false,
    }
}

/// Whether `mod.rs` declares the spark's module.
pub fn check_spark_in_mod_rs(mod_rs: &Result<Option<String>, String>, spark_name: &str) -> (r: bool)
    ensures
        r == file_holds(file_view(*mod_rs), module_line(spark_name@)),
{
    match mod_rs {
        Ok(Some(c)) => {
            let p = String::from_str("pub mod ").concat(spark_name).concat(";");
            str_contains(c.as_str(), p.as_str())
        },
        _ => false,
    }
}

/// The spark a line of `registry.rs` names: a trimmed line that starts with a
/// quote and holds `" =>` names the text up to the next quote, unless that
/// is the catch-all `_`.
pub open spec fn registry_entry(line: Seq<char>) -> Option<Seq<char>> {
    let t = trim(line);
    if t.len() > 0 && t[0] == '"' && contains(t, "\" =>"@) {
        match find(t.drop_first(), seq!['"']) {
            Some(e) => {
                let name = t.subrange(1, e + 1);
                if name == "_"@ {
                    None
                } else {
                    Some(name)
                }
            },
            None => None,
        }
    } else {
        None
    }
}

/// The module a line of `mod.rs` declares, unless it is the registry or the
/// component helpers.
pub open spec fn module_entry(line: Seq<char>) -> Option<Seq<char>> {
    let t = trim(line);
    if starts_with(t, "pub mod "@) && ends_with(t, ";"@) {
        let m = t.subrange(8, t.len() - 1);
        if m == "makeuse"@ || m == "registry"@ {
            None
        } else {
            Some(m)
        }
    } else {
        None
    }
}

/// The names the lines give, in order.
pub open spec fn listed_names(ls: Seq<Seq<char>>, registry: bool) -> Seq<Seq<char>>
    decreases ls.len(),
{
    if ls.len() == 0 {
        seq![]
    } else {
        let rest = listed_names(ls.drop_last(), registry);
        let e = if registry {
            registry_entry(ls.last())
        } else {
            module_entry(ls.last())
        };
        match e {
            Some(n) => rest.push(n),
            None => rest,
        }
    }
}

/// The sparks a file lists: none when it does not exist, the described
/// failure (prefixed with `what`) when it cannot be read.
pub open spec fn file_listing(f: Result<Option<Seq<char>>, Seq<char>>, registry: bool) -> Result<
    Seq<Seq<char>>,
    Seq<char>,
> {
    match f {
        Ok(None) => Ok(seq![]),
        Ok(Some(c)) => Ok(listed_names(lines(c), registry)),
        Err(e) => Err(
            if registry {
                "Failed to read registry.rs: "@
            } else {
                "Failed to read mod.rs: "@
            } + e,
        ),
    }
}

fn registry_entry_exec(line: &Vec<char>) -> (r: Option<String>)
    ensures
        match r {
            Some(n) => registry_entry(line@) == Some(n@),
            None => registry_entry(line@) is None,
        },
{
    let t = trim_exec(line);
    let arrow = chars_of("\" =>");
    if t.len() == 0 || t[0] != '"' || !crate::text::contains_exec(&t, &arrow) {
        return None;
    }
    let rest = slice_vec(&t, 1, t.len());
    assert(rest@ =~= t@.drop_first());
    let quote: Vec<char> = vec!['"'];
    assert(quote@ =~= seq!['"']);
    match find_exec(&rest, &quote) {
        Some(e) => {
            let name = slice_vec(&t, 1, e + 1);
            if name.len() == 1 && name[0] == '_' {
                proof {
                    reveal_strlit("_");
                    assert(name@ =~= "_"@);
                }
                None
            } else {
                proof {
                    reveal_strlit("_");
                }
                Some(string_of(&name))
            }
        },
        None => None,
    }
}

fn module_entry_exec(line: &Vec<char>) -> (r: Option<String>)
    ensures
        match r {
            Some(n) => module_entry(line@) == Some(n@),
            None => module_entry(line@) is None,
        },
{
    let t = trim_exec(line);
    let prefix = chars_of("pub mod ");
    let semi = chars_of(";");
    proof {
        reveal_strlit("pub mod ");
        reveal_strlit(";");
    }
    if !starts_with_exec(&t, &prefix) || !crate::text::ends_with_exec(&t, &semi) {
        return None;
    }
    proof {
        if t@.len() <= 8 {
            assert(t@.subrange(0, 8) == "pub mod "@);
            assert(t@.subrange(0, 8)[7] == ' ');
            assert(t@.subrange(t@.len() - 1, t@.len() as int) == ";"@);
            assert(t@.subrange(t@.len() - 1, t@.len() as int)[0] == ';');
            assert(false);
        }
    }
    let m = slice_vec(&t, 8, t.len() - 1);
    let name = string_of(&m);
    if str_eq(name.as_str(), "makeuse") || str_eq(name.as_str(), "registry") {
        None
    } else {
        Some(name)
    }
}

/// The sparks a file lists, or why it could not be read.
fn list_file(f: &Result<Option<String>, String>, registry: bool) -> (r: Result<Vec<String>, String>)
    ensures
        match file_listing(file_view(*f), registry) {
            Ok(names) => r matches Ok(v) && strings_view(v@) == names,
            Err(e) => r matches Err(x) && x@ == e,
        },
{
    match f {
        Ok(None) => {
            let v: Vec<String> = Vec::new();
            assert(strings_view(v@) =~= Seq::<Seq<char>>::empty());
            Ok(v)
        },
        Err(e) => {
            if registry {
                Err(String::from_str("Failed to read registry.rs: ").concat(e.as_str()))
            } else {
                Err(String::from_str("Failed to read mod.rs: ").concat(e.as_str()))
            }
        },
        Ok(Some(c)) => {
            let v = chars_of(c.as_str());
            let ls = lines_exec(&v);
            let mut out: Vec<String> = Vec::new();
            let mut i: usize = 0;
            while i < ls.len()
                invariant
                    i <= ls@.len(),
                    v@ == c@,
                    ls@.len() == lines(v@).len(),
                    forall|j: int| 0 <= j < ls@.len() ==> #[trigger] ls@[j]@ == lines(v@)[j],
                    strings_view(out@) == listed_names(lines(v@).subrange(0, i as int), registry),
                decreases ls@.len() - i,
            {
                proof {
                    let p = lines(v@).subrange(0, i + 1);
                    assert(p.drop_last() =~= lines(v@).subrange(0, i as int));
                    assert(p.last() == ls@[i as int]@);
                }
                let e = if registry {
                    registry_entry_exec(&ls[i])
                } else {
                    module_entry_exec(&ls[i])
                };
                match e {
                    Some(n) => {
                        let ghost before = strings_view(out@);
                        out.push(n);
                        assert(strings_view(out@) =~= before.push(n@));
                    },
                    None => {},
                }
                i = i + 1;
            }
            assert(lines(v@).subrange(0, lines(v@).len() as int) =~= lines(v@));
            Ok(out)
        },
    }
}

/// The sparks `registry.rs` has match arms for.
pub fn get_sparks_from_registry(registry: &Result<Option<String>, String>) -> (r: Result<Vec<String>, String>)
    ensures
        match file_listing(file_view(*registry), true) {
            Ok(names) => r matches Ok(v) && strings_view(v@) == names,
            Err(e) => r matches Err(x) && x@ == e,
        },
{
    list_file(registry, true)
}

/// The spark modules `mod.rs` declares.
pub fn get_sparks_from_mod_rs(mod_rs: &Result<Option<String>, String>) -> (r: Result<Vec<String>, String>)
    ensures
        match file_listing(file_view(*mod_rs), false) {
            Ok(names) => r matches Ok(v) && strings_view(v@) == names,
            Err(e) => r matches Err(x) && x@ == e,
        },
{
    list_file(mod_rs, false)
}

// ---------------------------------------------------------------------------
// Consistency of the spark state
// ---------------------------------------------------------------------------

/// A configured spark and whether its directory and manifest are both present.
#[derive(Debug)]
pub struct SparkInstall {
    pub name: String,
    pub installed: bool,
}

/// The inconsistencies between the configuration and what is installed.
#[derive(Debug)]
pub struct SparkStateReport {
    /// Configured sparks whose directory or manifest is missing.
    pub missing_directories: Vec<String>,
    /// Installed sparks missing from the registry or from `mod.rs`: name,
    /// whether the registry lacks it, whether `mod.rs` lacks it.
    pub incomplete_sparks: Vec<(String, bool, bool)>,
    /// Spark directories that are not configured.
    pub unconfigured_directories: Vec<String>,
    /// Registry arms of sparks that are not configured.
    pub orphaned_registry_entries: Vec<String>,
    /// Module declarations of sparks that are not configured.
    pub orphaned_mod_entries: Vec<String>,
}

/// The outcome of the consistency check; `DirectoryMissing` and
/// `Inconsistent` stop the start-up.
#[derive(Debug)]
pub enum SparkState {
    /// Nothing to check: no configuration, or no sparks directory and no spark configured.
    Unchecked,
    /// Sparks are configured but the sparks directory is missing.
    DirectoryMissing,
    Consistent,
    Inconsistent(SparkStateReport),
}

/// The names of the configured sparks.
pub open spec fn install_names(c: Seq<SparkInstall>) -> Seq<String> {
    c.map_values(|s: SparkInstall| s.name)
}

/// The configured sparks whose directory or manifest is missing.
pub open spec fn missing_installs(c: Seq<SparkInstall>) -> Seq<Seq<char>>
    decreases c.len(),
{
    if c.len() == 0 {
        seq![]
    } else {
        let rest = missing_installs(c.drop_last());
        if !c.last().installed {
            rest.push(c.last().name@)
        } else {
            rest
        }
    }
}

/// The installed sparks missing from the registry or from `mod.rs`.
pub open spec fn incomplete_installs(
    c: Seq<SparkInstall>,
    registry: Result<Option<Seq<char>>, Seq<char>>,
    mod_rs: Result<Option<Seq<char>>, Seq<char>>,
) -> Seq<(Seq<char>, bool, bool)>
    decreases c.len(),
{
    if c.len() == 0 {
        seq![]
    } else {
        let rest = incomplete_installs(c.drop_last(), registry, mod_rs);
        let s = c.last();
        let reg_missing = !file_holds(registry, registry_pattern(s.name@));
        let mod_missing = !file_holds(mod_rs, module_line(s.name@));
        if s.installed && (reg_missing || mod_missing) {
            rest.push((s.name@, reg_missing, mod_missing))
        } else {
            rest
        }
    }
}

/// The spark directories (name, is a directory) that are not configured;
/// the registry and component helper directories are not sparks.
pub open spec fn unconfigured_dirs(entries: Seq<(String, bool)>, configured: Seq<String>) -> Seq<Seq<char>>
    decreases entries.len(),
{
    if entries.len() == 0 {
        seq![]
    } else {
        let rest = unconfigured_dirs(entries.drop_last(), configured);
        let (n, is_dir) = entries.last();
        if is_dir && n@ != "registry"@ && n@ != "makeuse"@ && !has_string(configured, n@) {
            rest.push(n@)
        } else {
            rest
        }
    }
}

/// The listed names that are not configured.
pub open spec fn unconfigured_names(listed: Seq<Seq<char>>, configured: Seq<String>) -> Seq<Seq<char>>
    decreases listed.len(),
{
    if listed.len() == 0 {
        seq![]
    } else {
        let rest = unconfigured_names(listed.drop_last(), configured);
        if has_string(configured, listed.last()) {
            rest
        } else {
            rest.push(listed.last())
        }
    }
}

/// The orphans of a listing that could be read; none otherwise.
pub open spec fn orphans(listing: Result<Seq<Seq<char>>, Seq<char>>, configured: Seq<String>) -> Seq<Seq<char>> {
    match listing {
        Ok(names) => unconfigured_names(names, configured),
        Err(_) => seq![],
    }
}

/// The report of the spark state.
pub open spec fn state_report(
    c: Seq<SparkInstall>,
    registry: Result<Option<Seq<char>>, Seq<char>>,
    mod_rs: Result<Option<Seq<char>>, Seq<char>>,
    entries: Option<Seq<(String, bool)>>,
) -> (Seq<Seq<char>>, Seq<(Seq<char>, bool, bool)>, Seq<Seq<char>>, Seq<Seq<char>>, Seq<Seq<char>>) {
    let names = install_names(c);
    (
        missing_installs(c),
        incomplete_installs(c, registry, mod_rs),
        match entries {
            Some(e) => unconfigured_dirs(e, names),
            None => seq![],
        },
        orphans(file_listing(registry, true), names),
        orphans(file_listing(mod_rs, false), names),
    )
}

/// The report, viewed.
pub open spec fn report_view(r: SparkStateReport) -> (
    Seq<Seq<char>>,
    Seq<(Seq<char>, bool, bool)>,
    Seq<Seq<char>>,
    Seq<Seq<char>>,
    Seq<Seq<char>>,
) {
    (
        strings_view(r.missing_directories@),
        r.incomplete_sparks@.map_values(|e: (String, bool, bool)| (e.0@, e.1, e.2)),
        strings_view(r.unconfigured_directories@),
        strings_view(r.orphaned_registry_entries@),
        strings_view(r.orphaned_mod_entries@),
    )
}

/// A report finds nothing.
pub open spec fn report_empty(
    r: (Seq<Seq<char>>, Seq<(Seq<char>, bool, bool)>, Seq<Seq<char>>, Seq<Seq<char>>, Seq<Seq<char>>),
) -> bool {
    r.0.len() == 0 && r.1.len() == 0 && r.2.len() == 0 && r.3.len() == 0 && r.4.len() == 0
}

fn names_of(c: &Vec<SparkInstall>) -> (r: Vec<String>)
    ensures
        r@ == install_names(c@),
{
    let mut out: Vec<String> = Vec::new();
    let mut i: usize = 0;
    while i < c.len()
        invariant
            i <= c@.len(),
            out@ == install_names(c@.subrange(0, i as int)),
        decreases c@.len() - i,
    {
        out.push(c[i].name.clone());
        proof {
            assert(install_names(c@.subrange(0, i + 1)) =~= install_names(c@.subrange(0, i as int)).push(
                c@[i as int].name,
            ));
        }
        i = i + 1;
    }
    assert(c@.subrange(0, c@.len() as int) =~= c@);
    out
}

fn orphan_list(listing: &Result<Vec<String>, String>, configured: &Vec<String>) -> (r: Vec<String>)
    ensures
        strings_view(r@) == orphans(
            match listing {
                Ok(v) => Ok(strings_view(v@)),
                Err(e) => Err(e@),
            },
            configured@,
        ),
{
    let mut out: Vec<String> = Vec::new();
    match listing {
        Err(_) => {
            assert(strings_view(out@) =~= Seq::<Seq<char>>::empty());
        },
        Ok(v) => {
            let mut i: usize = 0;
            while i < v.len()
                invariant
                    i <= v@.len(),
                    strings_view(out@) == unconfigured_names(strings_view(v@.subrange(0, i as int)), configured@),
                decreases v@.len() - i,
            {
                proof {
                    let p = strings_view(v@.subrange(0, i + 1));
                    assert(p.drop_last() =~= strings_view(v@.subrange(0, i as int)));
                    assert(p.last() == v@[i as int]@);
                }
                if !vec_has_str(configured, v[i].as_str()) {
                    let ghost before = strings_view(out@);
                    out.push(v[i].clone());
                    assert(strings_view(out@) =~= before.push(v@[i as int]@));
                }
                i = i + 1;
            }
            assert(v@.subrange(0, v@.len() as int) =~= v@);
        },
    }
    out
}

/// Checks the spark state against the configuration (`configured` is `None`
/// when no configuration is loaded): every configured spark must be installed
/// and appear in the registry and `mod.rs`, and no directory, registry arm or
/// module declaration may exist for a spark that is not configured.
/// `dir_entries` lists the sparks directory's entries (name, is a directory),
/// `None` when it cannot be listed.
pub fn validate_and_sync_spark_state(
    configured: Option<&Vec<SparkInstall>>,
    sparks_dir_exists: bool,
    registry: &Result<Option<String>, String>,
    mod_rs: &Result<Option<String>, String>,
    dir_entries: Option<&Vec<(String, bool)>>,
) -> (r: SparkState)
    ensures
        match configured {
            None => (r is Unchecked),
            Some(c) => if !sparks_dir_exists {
                if c@.len() > 0 {
                    (r is DirectoryMissing)
                } else {
                    (r is Unchecked)
                }
            } else {
                let expected = state_report(
                    c@,
                    file_view(*registry),
                    file_view(*mod_rs),
                    match dir_entries {
                        Some(e) => Some(e@),
                        None => None,
                    },
                );
                if report_empty(expected) {
                    (r is Consistent)
                } else {
                    (r matches SparkState::Inconsistent(rep) && report_view(rep) == expected)
                }
            },
        },
{
    let c = match configured {
        None => {
            return SparkState::Unchecked;
        },
        Some(c) => c,
    };
    if !sparks_dir_exists {
        if c.len() > 0 {
            return SparkState::DirectoryMissing;
        }
        return SparkState::Unchecked;
    }
    let names = names_of(c);
    let mut missing: Vec<String> = Vec::new();
    let mut incomplete: Vec<(String, bool, bool)> = Vec::new();
    let mut i: usize = 0;
    while i < c.len()
        invariant
            i <= c@.len(),
            strings_view(missing@) == missing_installs(c@.subrange(0, i as int)),
            incomplete@.map_values(|e: (String, bool, bool)| (e.0@, e.1, e.2)) == incomplete_installs(
                c@.subrange(0, i as int),
                file_view(*registry),
                file_view(*mod_rs),
            ),
        decreases c@.len() - i,
    {
        proof {
            let p = c@.subrange(0, i + 1);
            assert(p.drop_last() =~= c@.subrange(0, i as int));
            assert(p.last() == c@[i as int]);
        }
        let s = &c[i];
        if !s.installed {
            let ghost before = strings_view(missing@);
            missing.push(s.name.clone());
            assert(strings_view(missing@) =~= before.push(s.name@));
        } else {
            let reg_missing = !check_spark_in_registry(registry, s.name.as_str());
            let mod_missing = !check_spark_in_mod_rs(mod_rs, s.name.as_str());
            if reg_missing || mod_missing {
                let ghost before = incomplete@.map_values(|e: (String, bool, bool)| (e.0@, e.1, e.2));
                incomplete.push((s.name.clone(), reg_missing, mod_missing));
                assert(incomplete@.map_values(|e: (String, bool, bool)| (e.0@, e.1, e.2)) =~= before.push(
                    (s.name@, reg_missing, mod_missing),
                ));
            }
        }
        i = i + 1;
    }
    assert(c@.subrange(0, c@.len() as int) =~= c@);
    let mut unconfigured: Vec<String> = Vec::new();
    match dir_entries {
        None => {
            assert(strings_view(unconfigured@) =~= Seq::<Seq<char>>::empty());
        },
        Some(entries) => {
            let mut k: usize = 0;
            while k < entries.len()
                invariant
                    k <= entries@.len(),
                    names@ == install_names(c@),
                    strings_view(unconfigured@) == unconfigured_dirs(entries@.subrange(0, k as int), names@),
                decreases entries@.len() - k,
            {
                proof {
                    let p = entries@.subrange(0, k + 1);
                    assert(p.drop_last() =~= entries@.subrange(0, k as int));
                    assert(p.last() == entries@[k as int]);
                }
                let (n, is_dir) = (&entries[k].0, entries[k].1);
                if is_dir && !str_eq(n.as_str(), "registry") && !str_eq(n.as_str(), "makeuse") && !vec_has_str(
                    &names,
                    n.as_str(),
                ) {
                    let ghost before = strings_view(unconfigured@);
                    unconfigured.push(n.clone());
                    assert(strings_view(unconfigured@) =~= before.push(n@));
                }
                k = k + 1;
            }
            assert(entries@.subrange(0, entries@.len() as int) =~= entries@);
        },
    }
    let reg_listing = get_sparks_from_registry(registry);
    let mod_listing = get_sparks_from_mod_rs(mod_rs);
    let orphaned_registry = orphan_list(&reg_listing, &names);
    let orphaned_mod = orphan_list(&mod_listing, &names);
    let found = missing.len() > 0 || incomplete.len() > 0 || unconfigured.len() > 0 || orphaned_registry.len() > 0
        || orphaned_mod.len() > 0;
    proof {
        assert(file_listing(file_view(*registry), true) == match reg_listing {
            Ok(v) => Ok::<Seq<Seq<char>>, Seq<char>>(strings_view(v@)),
            Err(e) => Err(e@),
        });
        assert(file_listing(file_view(*mod_rs), false) == match mod_listing {
            Ok(v) => Ok::<Seq<Seq<char>>, Seq<char>>(strings_view(v@)),
            Err(e) => Err(e@),
        });
    }
    if found {
        SparkState::Inconsistent(
            SparkStateReport {
                missing_directories: missing,
                incomplete_sparks: incomplete,
                unconfigured_directories: unconfigured,
                orphaned_registry_entries: orphaned_registry,
                orphaned_mod_entries: orphaned_mod,
            },
        )
    } else {
        SparkState::Consistent
    }
}

// ---------------------------------------------------------------------------
// Laws
// ---------------------------------------------------------------------------

/// A field of a `[spark]` table holds a string.
pub open spec fn holds_string(t: Seq<(String, Option<String>)>, k: Seq<char>) -> bool {
    field_value(t, k) matches Some(Some(_))
}

/// The four fields a manifest must give, in the order they are checked.
pub open spec fn manifest_fields() -> Seq<Seq<char>> {
    seq!["name"@, "version"@, "description"@, "author"@]
}

/// The complaint about one field: missing, or not a string.
pub open spec fn field_complaint(t: Seq<(String, Option<String>)>, k: Seq<char>) -> Result<(), Seq<char>> {
    match field_value(t, k) {
        None => Err("Missing required field '"@ + k + "' in [spark] section"@),
        Some(None) => Err("Field '"@ + k + "' must be a string"@),
        Some(Some(_)) => Ok(()),
    }
}

/// The verdict on a `[spark]` table, unfolded over its four fields.
proof fn lemma_check_four(t: Seq<(String, Option<String>)>)
    ensures
        required_fields() == manifest_fields(),
        check_fields(t, manifest_fields()) == (if !holds_string(t, "name"@) {
            field_complaint(t, "name"@)
        } else if !holds_string(t, "version"@) {
            field_complaint(t, "version"@)
        } else if !holds_string(t, "description"@) {
            field_complaint(t, "description"@)
        } else if !holds_string(t, "author"@) {
            field_complaint(t, "author"@)
        } else {
            Ok(())
        }),
{
    let f = manifest_fields();
    let f1 = f.drop_first();
    let f2 = f1.drop_first();
    let f3 = f2.drop_first();
    let f4 = f3.drop_first();
    assert(f1 =~= seq!["version"@, "description"@, "author"@]);
    assert(f2 =~= seq!["description"@, "author"@]);
    assert(f3 =~= seq!["author"@]);
    assert(f4 =~= Seq::<Seq<char>>::empty());
    assert(check_fields(t, f4) == Ok::<(), Seq<char>>(()));
    assert(check_fields(t, f3) == field_complaint(t, "author"@));
    assert(f2[0] == "description"@ && f1[0] == "version"@ && f[0] == "name"@);
    assert(check_fields(t, f2) == (if !holds_string(t, "description"@) {
        field_complaint(t, "description"@)
    } else {
        check_fields(t, f3)
    }));
    assert(check_fields(t, f1) == (if !holds_string(t, "version"@) {
        field_complaint(t, "version"@)
    } else {
        check_fields(t, f2)
    }));
    assert(check_fields(t, f) == (if !holds_string(t, "name"@) {
        field_complaint(t, "name"@)
    } else {
        check_fields(t, f1)
    }));
}

/// A `[spark]` table is accepted exactly when its name, version, description
/// and author are all strings and its name is the spark's own. Otherwise the
/// first of name, version, description and author that is missing or not a
/// string is named in the complaint, and a table whose fields are all strings
/// but whose name differs is refused for the mismatch.
pub proof fn law_manifest_fields(t: Vec<(String, Option<String>)>, spark_name: Seq<char>, k: int)
    ensures
        manifest_verdict(ManifestRead::Parsed(SparkSection::Table(t)), spark_name) is Ok <==> (field_value(
            t@,
            "name"@,
        ) == Some(Some(spark_name)) && holds_string(t@, "version"@) && holds_string(t@, "description"@)
            && holds_string(t@, "author"@)),
        0 <= k < 4 && (forall|j: int| 0 <= j < k ==> holds_string(t@, #[trigger] manifest_fields()[j])) ==> {
            &&& field_value(t@, manifest_fields()[k]) is None ==> manifest_verdict(
                ManifestRead::Parsed(SparkSection::Table(t)),
                spark_name,
            ) == Err::<(), Seq<char>>("Missing required field '"@ + manifest_fields()[k] + "' in [spark] section"@)
            &&& field_value(t@, manifest_fields()[k]) == Some(None::<Seq<char>>) ==> manifest_verdict(
                ManifestRead::Parsed(SparkSection::Table(t)),
                spark_name,
            ) == Err::<(), Seq<char>>("Field '"@ + manifest_fields()[k] + "' must be a string"@)
        },
        forall|n: Seq<char>|
            field_value(t@, "name"@) == Some(Some(n)) && n != spark_name && holds_string(t@, "version"@)
                && holds_string(t@, "description"@) && holds_string(t@, "author"@) ==> #[trigger] manifest_verdict(
                ManifestRead::Parsed(SparkSection::Table(t)),
                spark_name,
            ) == Err::<(), Seq<char>>(
                "Spark name mismatch: directory name '"@ + spark_name + "' does not match manifest name '"@ + n
                    + "'"@,
            ),
{
    lemma_check_four(t@);
    let f = manifest_fields();
    if 0 <= k < 4 && (forall|j: int| 0 <= j < k ==> holds_string(t@, #[trigger] manifest_fields()[j])) {
        if k > 0 {
            assert(holds_string(t@, f[0]));
        }
        if k > 1 {
            assert(holds_string(t@, f[1]));
        }
        if k > 2 {
            assert(holds_string(t@, f[2]));
        }
    }
}

/// A spark state found consistent has every installed configured spark in
/// both the registry and `mod.rs`, and no configured spark uninstalled.
pub proof fn law_consistent_state_is_complete(
    c: Seq<SparkInstall>,
    registry: Result<Option<Seq<char>>, Seq<char>>,
    mod_rs: Result<Option<Seq<char>>, Seq<char>>,
    entries: Option<Seq<(String, bool)>>,
    i: int,
)
    requires
        report_empty(state_report(c, registry, mod_rs, entries)),
        0 <= i < c.len(),
    ensures
        c[i].installed,
        file_holds(registry, registry_pattern(c[i].name@)),
        file_holds(mod_rs, module_line(c[i].name@)),
{
    if !c[i].installed {
        lemma_missing_installs(c, i);
    }
    if !file_holds(registry, registry_pattern(c[i].name@)) || !file_holds(mod_rs, module_line(c[i].name@)) {
        lemma_incomplete_installs(c, registry, mod_rs, i);
    }
}

proof fn lemma_missing_installs(c: Seq<SparkInstall>, i: int)
    requires
        0 <= i < c.len(),
        !c[i].installed,
    ensures
        missing_installs(c).len() > 0,
    decreases c.len(),
{
    if i < c.len() - 1 {
        lemma_missing_installs(c.drop_last(), i);
    }
}

proof fn lemma_incomplete_installs(
    c: Seq<SparkInstall>,
    registry: Result<Option<Seq<char>>, Seq<char>>,
    mod_rs: Result<Option<Seq<char>>, Seq<char>>,
    i: int,
)
    requires
        0 <= i < c.len(),
        c[i].installed,
        !file_holds(registry, registry_pattern(c[i].name@)) || !file_holds(mod_rs, module_line(c[i].name@)),
    ensures
        incomplete_installs(c, registry, mod_rs).len() > 0,
    decreases c.len(),
{
    if i < c.len() - 1 {
        lemma_incomplete_installs(c.drop_last(), registry, mod_rs, i);
    }
}

} // verus!
