//! The registry of databases: what is listed, renamed, removed and switched to, and
//! the errors reported for each, as `DATABASE:<code>:<detail>` strings.
use vstd::prelude::*;
use crate::config::{
    first_key_match, ids, lemma_first_key_match_contains, registration_index, AppConfig,
    DatabaseRegistration,
};
use crate::text::{append_chars, ascii_lower, ascii_lower_char, chars_of, string_of, trim, trim_chars};

verus! {

/// A registered database as listed to the user.
#[derive(Debug, Clone, PartialEq, Eq)]
pub struct DatabaseInfo {
    pub id: String,
    pub name: String,
    pub path: String,
    pub is_active: bool,
}

/// The active database and the places its data lives.
#[derive(Debug, Clone, PartialEq, Eq)]
pub struct ActiveDatabaseInfo {
    pub id: String,
    pub name: String,
    pub path: String,
    pub db_path: String,
    pub images_dir: String,
    pub icons_dir: String,
    pub staged_dir: String,
}

/// Size figures of the active database.
#[derive(Debug, Clone, PartialEq, Eq)]
pub struct ActiveDatabaseStats {
    pub id: String,
    pub name: String,
    pub item_count: i64,
    pub db_size: u64,
}

/// The event sent when the active database changes.
#[derive(Debug, Clone, PartialEq, Eq)]
pub struct DatabaseSwitchedPayload {
    pub id: String,
    pub name: String,
}

/// The error text `DATABASE:<code>:<message>`.
pub open spec fn error_text(code: Seq<char>, message: Seq<char>) -> Seq<char> {
    "DATABASE:"@ + code + seq![':'] + message
}

/// The error text `DATABASE:<code>:<message>`.
pub fn error(code: &str, message: &str) -> (e: String)
    ensures
        e@ == error_text(code@, message@),
{
    let mut out = chars_of("DATABASE:");
    let c = chars_of(code);
    append_chars(&mut out, c.as_slice());
    out.push(':');
    let m = chars_of(message);
    append_chars(&mut out, m.as_slice());
    string_of(out.as_slice())
}

/// A database name, trimmed; an empty one is refused.
pub fn validate_name(name: &str) -> (r: Result<String, String>)
    ensures
        match r {
            Ok(n) => trim(name@).len() > 0 && n@ == trim(name@),
            Err(e) => trim(name@).len() == 0 && e@ == error_text(
                "INVALID_NAME"@,
                "name is empty"@,
            ),
        },
{
    let c = chars_of(name);
    let t = trim_chars(c.as_slice());
    if t.len() == 0 {
        Err(error("INVALID_NAME", "name is empty"))
    } else {
        Ok(string_of(t.as_slice()))
    }
}

/// The key by which two paths are the same database: the absolute path with `/` for
/// `\` and ASCII letters in lower case (Windows paths ignore ASCII case).
pub open spec fn path_key_spec(absolute: Seq<char>) -> Seq<char> {
    absolute.map_values(|c: char| if c == '\\' { '/' } else { ascii_lower(c) })
}

/// The key of an absolute (preferably canonical) path.
pub fn normalized_path_key(absolute: &str) -> (k: String)
    ensures
        k@ == path_key_spec(absolute@),
{
    let c = chars_of(absolute);
    let mut out: Vec<char> = Vec::new();
    let mut i: usize = 0;
    while i < c.len()
        invariant
            i <= c@.len(),
            out@ == path_key_spec(c@.take(i as int)),
        decreases c.len() - i,
    {
        let ch = c[i];
        let mapped = if ch == '\\' {
            '/'
        } else {
            ascii_lower_char(ch)
        };
        out.push(mapped);
        i += 1;
        assert(out@ =~= path_key_spec(c@.take(i as int)));
    }
    assert(c@.take(i as int) =~= c@);
    string_of(out.as_slice())
}

/// A new path is refused when its key is the key of a registered database's path;
/// `registered_keys[i]` is the key of the `i`-th registration.
pub fn reject_duplicate_path(registered_keys: &[String], path_key: &str, shown: &str) -> (r: Result<
    (),
    String,
>)
    ensures
        match r {
            Ok(_) => !crate::text::string_views(registered_keys@).contains(path_key@),
            Err(e) => crate::text::string_views(registered_keys@).contains(path_key@) && e@
                == error_text("DUPLICATE_PATH"@, shown@),
        },
{
    let want = chars_of(path_key);
    let ghost views = crate::text::string_views(registered_keys@);
    let mut i: usize = 0;
    while i < registered_keys.len()
        invariant
            i <= registered_keys@.len(),
            want@ == path_key@,
            views == crate::text::string_views(registered_keys@),
            forall|j: int| 0 <= j < i ==> views[j] != path_key@,
        decreases registered_keys.len() - i,
    {
        let k = chars_of(registered_keys[i].as_str());
        assert(views[i as int] == registered_keys@[i as int]@);
        if crate::text::chars_eq(k.as_slice(), want.as_slice()) {
            assert(views[i as int] == path_key@);
            return Err(error("DUPLICATE_PATH", shown));
        }
        i += 1;
    }
    Ok(())
}

pub open spec fn opt_view(s: Option<&str>) -> Option<Seq<char>> {
    match s {
        Some(t) => Some(t@),
        None => None,
    }
}

/// How a registration is listed, given the active id.
pub fn info(registration: &DatabaseRegistration, active_id: Option<&str>) -> (i: DatabaseInfo)
    ensures
        i.id@ == registration.id@,
        i.name@ == registration.name@,
        i.path@ == registration.path@,
        i.is_active == (opt_view(active_id) == Some(registration.id@)),
{
    let is_active = match active_id {
        Some(a) => {
            let x = chars_of(a);
            let y = chars_of(registration.id.as_str());
            crate::text::chars_eq(x.as_slice(), y.as_slice())
        },
        None => false,
    };
    DatabaseInfo {
        id: registration.id.clone(),
        name: registration.name.clone(),
        path: registration.path.clone(),
        is_active,
    }
}

fn opt_as_str(s: &Option<String>) -> (r: Option<&str>)
    ensures
        opt_view(r) == match s {
            Some(t) => Some(t@),
            None => None::<Seq<char>>,
        },
{
    match s {
        Some(t) => Some(t.as_str()),
        None => None,
    }
}

/// Every registration as listed, in order.
pub fn list_databases(config: &AppConfig) -> (v: Vec<DatabaseInfo>)
    ensures
        v@.len() == config.databases@.len(),
        forall|i: int|
            0 <= i < v@.len() ==> (#[trigger] v@[i]).id@ == config.databases@[i].id@
                && v@[i].name@ == config.databases@[i].name@ && v@[i].path@
                == config.databases@[i].path@ && v@[i].is_active == (match config.active_database_id {
                Some(a) => a@ == config.databases@[i].id@,
                None => false,
            }),
{
    let mut v: Vec<DatabaseInfo> = Vec::new();
    let active = opt_as_str(&config.active_database_id);
    let mut i: usize = 0;
    while i < config.databases.len()
        invariant
            i <= config.databases@.len(),
            v@.len() == i,
            opt_view(active) == match config.active_database_id {
                Some(t) => Some(t@),
                None => None::<Seq<char>>,
            },
            forall|j: int|
                0 <= j < i ==> (#[trigger] v@[j]).id@ == config.databases@[j].id@
                    && v@[j].name@ == config.databases@[j].name@ && v@[j].path@
                    == config.databases@[j].path@ && v@[j].is_active == (
                match config.active_database_id {
                    Some(a) => a@ == config.databases@[j].id@,
                    None => false,
                }),
        decreases config.databases.len() - i,
    {
        v.push(info(&config.databases[i], active));
        i += 1;
    }
    v
}

/// Renames the first registration with id `id`; `NOT_FOUND` when there is none.
pub fn rename_registration(config: &mut AppConfig, id: &str, name: String) -> (r: Result<
    (),
    String,
>)
    ensures
        ({
            let olds = old(config).databases@;
            let news = final(config).databases@;
            match first_key_match(ids(olds), id@, 0) {
                Some(k) => r is Ok && news.len() == olds.len() && news[k].name@ == name@
                    && news[k].id@ == olds[k].id@ && news[k].path@ == olds[k].path@ && forall|j: int|
                    0 <= j < olds.len() && j != k ==> #[trigger] news[j] == olds[j],
                None => r is Err && r->Err_0@ == error_text("NOT_FOUND"@, id@) && news == olds,
            }
        }),
        final(config).active_database_id == old(config).active_database_id,
        final(config).data_path == old(config).data_path,
{
    match registration_index(&config.databases, id) {
        None => Err(error("NOT_FOUND", id)),
        Some(k) => {
            proof {
                lemma_first_key_match_contains(ids(config.databases@), id@);
            }
            assert(k < config.databases@.len()) by {
                crate::config::lemma_first_key_match_bounds(ids(config.databases@), id@);
            }
            let reg = DatabaseRegistration {
                id: config.databases[k].id.clone(),
                name,
                path: config.databases[k].path.clone(),
            };
            config.databases.set(k, reg);
            Ok(())
        },
    }
}

/// After the active database's data moved to `new_path`: its registration points
/// there, and so does the data path. `INCONSISTENT` when another database became active
/// meanwhile, `NOT_FOUND` when the registration is gone; the configuration is then
/// unchanged.
pub fn repoint_active_registration(config: &mut AppConfig, active_id: &str, new_path: String) -> (r:
    Result<(), String>)
    ensures
        ({
            let olds = old(config).databases@;
            let news = final(config).databases@;
            if !(old(config).active_database_id matches Some(a) && a@ == active_id@) {
                &&& r is Err
                &&& r->Err_0@ == error_text("INCONSISTENT"@, "active database changed"@)
                &&& *final(config) == *old(config)
            } else {
                match first_key_match(ids(olds), active_id@, 0) {
                    Some(k) => {
                        &&& r is Ok
                        &&& news.len() == olds.len()
                        &&& news[k].path@ == new_path@
                        &&& news[k].id@ == olds[k].id@
                        &&& news[k].name@ == olds[k].name@
                        &&& forall|j: int| 0 <= j < olds.len() && j != k ==> #[trigger] news[j] == olds[j]
                        &&& final(config).data_path matches Some(d) && d@ == new_path@
                        &&& final(config).active_database_id == old(config).active_database_id
                        &&& final(config).log_to_file == old(config).log_to_file
                        &&& final(config).run_as_admin == old(config).run_as_admin
                    },
                    None => {
                        &&& r is Err
                        &&& r->Err_0@ == error_text("NOT_FOUND"@, active_id@)
                        &&& *final(config) == *old(config)
                    },
                }
            }
        }),
{
    let still_active = match &config.active_database_id {
        Some(a) => crate::text::chars_eq(chars_of(a.as_str()).as_slice(), chars_of(active_id).as_slice()),
        None => false,
    };
    if !still_active {
        return Err(error("INCONSISTENT", "active database changed"));
    }
    match registration_index(&config.databases, active_id) {
        None => Err(error("NOT_FOUND", active_id)),
        Some(k) => {
            proof {
                lemma_first_key_match_contains(ids(config.databases@), active_id@);
            }
            assert(k < config.databases@.len()) by {
                crate::config::lemma_first_key_match_bounds(ids(config.databases@), active_id@);
            }
            let data_path = new_path.clone();
            let reg = DatabaseRegistration {
                id: config.databases[k].id.clone(),
                name: config.databases[k].name.clone(),
                path: new_path,
            };
            config.databases.set(k, reg);
            config.data_path = Some(data_path);
            Ok(())
        },
    }
}

/// What the disk says of the directory the data is to be moved to.
pub enum TargetProbe {
    /// Nothing is there.
    Missing,
    /// A file is there.
    NotADirectory,
    /// An empty directory is there.
    EmptyDirectory,
    /// A directory with entries is there.
    NonEmptyDirectory,
    /// It could not be read; the message of the error.
    Unreadable(String),
}

/// Whether the data may be moved to the target, and whether the target directory
/// already existed (it is then kept if the move fails): a missing target or an empty
/// directory will do; a file or a directory with entries is `TARGET_NOT_EMPTY` (shown
/// as `shown`); a read error is `INVALID_PATH`.
pub fn migration_target_check(probe: TargetProbe, shown: &str) -> (r: Result<bool, String>)
    ensures
        match probe {
            TargetProbe::Missing => r == Ok::<bool, String>(false),
            TargetProbe::EmptyDirectory => r == Ok::<bool, String>(true),
            TargetProbe::NotADirectory => r is Err && r->Err_0@ == error_text(
                "TARGET_NOT_EMPTY"@,
                shown@,
            ),
            TargetProbe::NonEmptyDirectory => r is Err && r->Err_0@ == error_text(
                "TARGET_NOT_EMPTY"@,
                shown@,
            ),
            TargetProbe::Unreadable(m) => r is Err && r->Err_0@ == error_text("INVALID_PATH"@, m@),
        },
{
    match probe {
        TargetProbe::Missing => Ok(false),
        TargetProbe::EmptyDirectory => Ok(true),
        TargetProbe::NotADirectory => Err(error("TARGET_NOT_EMPTY", shown)),
        TargetProbe::NonEmptyDirectory => Err(error("TARGET_NOT_EMPTY", shown)),
        TargetProbe::Unreadable(m) => Err(error("INVALID_PATH", m.as_str())),
    }
}

/// The registrations whose id is not `id`, in order.
pub open spec fn without_id(dbs: Seq<DatabaseRegistration>, id: Seq<char>) -> Seq<
    DatabaseRegistration,
> {
    dbs.filter(|d: DatabaseRegistration| d.id@ != id)
}

/// Removes every registration with id `id`. The active database cannot be removed
/// (`ACTIVE_DATABASE`), and an unknown id is `NOT_FOUND`; the files are not touched.
pub fn remove_registration(config: &mut AppConfig, id: &str) -> (r: Result<(), String>)
    ensures
        ({
            let olds = old(config).databases@;
            let news = final(config).databases@;
            let is_active = match old(config).active_database_id {
                Some(a) => a@ == id@,
                None => false,
            };
            if is_active {
                r is Err && r->Err_0@ == error_text("ACTIVE_DATABASE"@, id@) && news == olds
            } else if !ids(olds).contains(id@) {
                r is Err && r->Err_0@ == error_text("NOT_FOUND"@, id@) && news == olds
            } else {
                r is Ok && news == without_id(olds, id@)
            }
        }),
        final(config).active_database_id == old(config).active_database_id,
        final(config).data_path == old(config).data_path,
{
    let want = chars_of(id);
    let active = match &config.active_database_id {
        Some(a) => {
            let x = chars_of(a.as_str());
            crate::text::chars_eq(x.as_slice(), want.as_slice())
        },
        None => false,
    };
    if active {
        return Err(error("ACTIVE_DATABASE", id));
    }
    let ghost olds = config.databases@;
    let mut kept: Vec<DatabaseRegistration> = Vec::new();
    let mut removed = false;
    let mut i: usize = 0;
    while i < config.databases.len()
        invariant
            i <= olds.len(),
            config.databases@ == olds,
            want@ == id@,
            kept@ == without_id(olds.take(i as int), id@),
            removed == ids(olds.take(i as int)).contains(id@),
        decreases config.databases.len() - i,
    {
        let c = chars_of(config.databases[i].id.as_str());
        let same = crate::text::chars_eq(c.as_slice(), want.as_slice());
        proof {
            reveal(Seq::filter);
            assert(olds.take(i + 1).drop_last() =~= olds.take(i as int));
            assert(olds.take(i + 1).last() == olds[i as int]);
            assert(ids(olds.take(i + 1)) =~= ids(olds.take(i as int)).push(olds[i as int].id@));
            crate::config::lemma_push_contains_ids(ids(olds.take(i as int)), olds[i as int].id@, id@);
        }
        if same {
            removed = true;
        } else {
            let reg = DatabaseRegistration {
                id: config.databases[i].id.clone(),
                name: config.databases[i].name.clone(),
                path: config.databases[i].path.clone(),
            };
            assert(reg == olds[i as int]);
            kept.push(reg);
        }
        i += 1;
    }
    assert(olds.take(i as int) =~= olds);
    if !removed {
        return Err(error("NOT_FOUND", id));
    }
    config.databases = kept;
    Ok(())
}

/// The registration of the active database: `NOT_FOUND` (`active database`) when no
/// id is active, `NOT_FOUND` (the id) when it is not registered.
pub fn active_registration(config: &AppConfig) -> (r: Result<DatabaseRegistration, String>)
    ensures
        match config.active_database_id {
            None => r is Err && r->Err_0@ == error_text("NOT_FOUND"@, "active database"@),
            Some(a) => match first_key_match(ids(config.databases@), a@, 0) {
                Some(k) => r is Ok && r->Ok_0 == config.databases@[k],
                None => r is Err && r->Err_0@ == error_text("NOT_FOUND"@, a@),
            },
        },
{
    match &config.active_database_id {
        None => Err(error("NOT_FOUND", "active database")),
        Some(a) => registration_by_id(config, a.as_str()),
    }
}

fn registration_by_id(config: &AppConfig, id: &str) -> (r: Result<DatabaseRegistration, String>)
    ensures
        match first_key_match(ids(config.databases@), id@, 0) {
            Some(k) => r is Ok && r->Ok_0 == config.databases@[k],
            None => r is Err && r->Err_0@ == error_text("NOT_FOUND"@, id@),
        },
{
    match registration_index(&config.databases, id) {
        None => Err(error("NOT_FOUND", id)),
        Some(k) => {
            assert(k < config.databases@.len()) by {
                crate::config::lemma_first_key_match_bounds(ids(config.databases@), id@);
            }
            Ok(
                DatabaseRegistration {
                    id: config.databases[k].id.clone(),
                    name: config.databases[k].name.clone(),
                    path: config.databases[k].path.clone(),
                },
            )
        },
    }
}

/// The registration to switch to: `ALREADY_ACTIVE` when `id` is active already,
/// `NOT_FOUND` when it is not registered.
pub fn switch_target(config: &AppConfig, id: &str) -> (r: Result<DatabaseRegistration, String>)
    ensures
        match config.active_database_id {
            Some(a) if a@ == id@ => r is Err && r->Err_0@ == error_text("ALREADY_ACTIVE"@, id@),
            _ => match first_key_match(ids(config.databases@), id@, 0) {
                Some(k) => r is Ok && r->Ok_0 == config.databases@[k],
                None => r is Err && r->Err_0@ == error_text("NOT_FOUND"@, id@),
            },
        },
{
    let want = chars_of(id);
    let active = match &config.active_database_id {
        Some(a) => {
            let x = chars_of(a.as_str());
            crate::text::chars_eq(x.as_slice(), want.as_slice())
        },
        None => false,
    };
    if active {
        return Err(error("ALREADY_ACTIVE", id));
    }
    registration_by_id(config, id)
}

/// What the switch event says of a registration.
pub fn switched_payload(registration: &DatabaseRegistration) -> (p: DatabaseSwitchedPayload)
    ensures
        p.id@ == registration.id@,
        p.name@ == registration.name@,
{
    DatabaseSwitchedPayload { id: registration.id.clone(), name: registration.name.clone() }
}

/// Removing a registration leaves no registration with that id, and keeps every other
/// one, in order.
pub proof fn lemma_removed_id_is_gone(dbs: Seq<DatabaseRegistration>, id: Seq<char>, x: DatabaseRegistration)
    ensures
        !ids(without_id(dbs, id)).contains(id),
        x.id@ != id ==> (without_id(dbs, id).contains(x) <==> dbs.contains(x)),
    decreases dbs.len(),
{
    reveal(Seq::filter);
    if dbs.len() > 0 {
        lemma_removed_id_is_gone(dbs.drop_last(), id, x);
        let rest = without_id(dbs.drop_last(), id);
        let y = dbs.last();
        assert(dbs =~= dbs.drop_last().push(y));
        if y.id@ != id {
            assert(without_id(dbs, id) == rest.push(y));
            assert(ids(rest.push(y)) =~= ids(rest).push(y.id@));
            crate::config::lemma_push_contains_ids(ids(rest), y.id@, id);
            lemma_push_contains_reg(rest, y, x);
        } else {
            assert(without_id(dbs, id) == rest);
        }
        lemma_push_contains_reg(dbs.drop_last(), y, x);
    } else {
        assert(without_id(dbs, id) =~= dbs);
    }
}

proof fn lemma_push_contains_reg(t: Seq<DatabaseRegistration>, y: DatabaseRegistration, x: DatabaseRegistration)
    ensures
        t.push(y).contains(x) <==> (t.contains(x) || y == x),
{
    if t.contains(x) {
        let k = choose|k: int| 0 <= k < t.len() && t[k] == x;
        assert(t.push(y)[k] == x);
    }
    if y == x {
        assert(t.push(y)[t.len() as int] == x);
    }
    if t.push(y).contains(x) {
        let k = choose|k: int| 0 <= k < t.push(y).len() && t.push(y)[k] == x;
        if k < t.len() {
            assert(t[k] == x);
        }
    }
}

/// Whether registration `i` is another database than the active one.
pub open spec fn is_other(config: AppConfig, i: int) -> bool {
    match config.active_database_id {
        Some(a) => config.databases@[i].id@ != a@,
        None => true,
    }
}

/// Moving the active database's data to a path refuses a path registered to another
/// database: `DUPLICATE_PATH` (with the path as shown). `keys` are the path keys of the
/// registrations, in order; `new_key` is the key of the target.
pub fn reject_path_of_other(config: &AppConfig, keys: &[String], new_key: &str, shown: &str) -> (r:
    Result<(), String>)
    requires
        keys@.len() == config.databases@.len(),
    ensures
        r is Err <==> exists|i: int|
            0 <= i < keys@.len() && is_other(*config, i) && #[trigger] keys@[i]@ == new_key@,
        r matches Err(e) ==> e@ == error_text("DUPLICATE_PATH"@, shown@),
{
    let nk = chars_of(new_key);
    let active: Option<Vec<char>> = match &config.active_database_id {
        Some(a) => Some(chars_of(a.as_str())),
        None => None,
    };
    let mut i: usize = 0;
    while i < keys.len()
        invariant
            i <= keys@.len(),
            keys@.len() == config.databases@.len(),
            nk@ == new_key@,
            match active {
                Some(v) => config.active_database_id matches Some(a) && v@ == a@,
                None => config.active_database_id is None,
            },
            forall|j: int| 0 <= j < i ==> !(is_other(*config, j) && #[trigger] keys@[j]@ == new_key@),
        decreases keys.len() - i,
    {
        let other = match &active {
            Some(v) => {
                let id = chars_of(config.databases[i].id.as_str());
                !crate::text::chars_eq(id.as_slice(), v.as_slice())
            },
            None => true,
        };
        let k = chars_of(keys[i].as_str());
        if other && crate::text::chars_eq(k.as_slice(), nk.as_slice()) {
            assert(is_other(*config, i as int) && keys@[i as int]@ == new_key@);
            return Err(error("DUPLICATE_PATH", shown));
        }
        i += 1;
    }
    Ok(())
}

/// A target inside the data being moved is refused: the data directory itself, or its
/// `images`, `icons` or `staged` directory or anything below them (`INVALID_TARGET`).
/// `resource_keys` are the path keys of those three directories.
pub fn check_resource_target(source_key: &str, target_key: &str, resource_keys: &[String]) -> (r:
    Result<(), String>)
    ensures
        r is Err <==> (target_key@ == source_key@ || exists|i: int|
            0 <= i < resource_keys@.len() && crate::data_transfer::same_or_descendant_spec(
                target_key@,
                #[trigger] resource_keys@[i]@,
            )),
        r matches Err(e) ==> e@ == "DATABASE:INVALID_TARGET"@,
{
    let t = chars_of(target_key);
    let s = chars_of(source_key);
    if crate::text::chars_eq(t.as_slice(), s.as_slice()) {
        return Err("DATABASE:INVALID_TARGET".to_owned());
    }
    let mut i: usize = 0;
    while i < resource_keys.len()
        invariant
            i <= resource_keys@.len(),
            forall|j: int|
                0 <= j < i ==> !crate::data_transfer::same_or_descendant_spec(
                    target_key@,
                    #[trigger] resource_keys@[j]@,
                ),
        decreases resource_keys.len() - i,
    {
        if crate::data_transfer::same_or_descendant(target_key, resource_keys[i].as_str()) {
            return Err("DATABASE:INVALID_TARGET".to_owned());
        }
        i += 1;
    }
    Ok(())
}

} // verus!
