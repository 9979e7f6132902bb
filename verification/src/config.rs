//! Application configuration read before any database is opened: the registered
//! databases, which one is active, where data lives, and logging.
//!
//! Paths are text. Directories are joined the way Windows paths are: a `\` is put
//! between a directory and a name unless the directory already ends with a
//! separator or is only a drive (`C:`).
use vstd::prelude::*;
use crate::text::{append_chars, chars_eq, chars_of, string_of};

verus! {

/// Log files are rotated beyond this size (10 MB).
pub const DEFAULT_LOG_MAX_SIZE: u64 = 10485760;

/// A database known to the application.
#[derive(Debug, Clone, PartialEq, Eq)]
pub struct DatabaseRegistration {
    pub id: String,
    pub name: String,
    pub path: String,
}

/// The application configuration.
#[derive(Debug, Clone, PartialEq, Eq)]
pub struct AppConfig {
    pub active_database_id: Option<String>,
    pub databases: Vec<DatabaseRegistration>,
    /// Directory of the active database's data; none for the default location.
    pub data_path: Option<String>,
    /// Whether logs go to a file (off unless set).
    pub log_to_file: Option<bool>,
    /// Whether the application raises itself to administrator rights.
    pub run_as_admin: Option<bool>,
}

impl Default for AppConfig {
    fn default() -> (c: Self)
        ensures
            c.active_database_id is None,
            c.databases@.len() == 0,
            c.data_path is None,
            c.log_to_file is None,
            c.run_as_admin is None,
    {
        AppConfig {
            active_database_id: None,
            databases: Vec::new(),
            data_path: None,
            log_to_file: None,
            run_as_admin: None,
        }
    }
}

/// What a data migration did.
#[derive(Debug, Clone)]
pub struct MigrationResult {
    pub db_migrated: bool,
    pub images_migrated: bool,
    pub files_copied: usize,
    pub bytes_copied: u64,
    pub errors: Vec<String>,
}

impl Default for MigrationResult {
    fn default() -> (r: Self)
        ensures
            !r.db_migrated,
            !r.images_migrated,
            r.files_copied == 0,
            r.bytes_copied == 0,
            r.errors@.len() == 0,
    {
        MigrationResult {
            db_migrated: false,
            images_migrated: false,
            files_copied: 0,
            bytes_copied: 0,
            errors: Vec::new(),
        }
    }
}

impl MigrationResult {
    /// A migration succeeded when the database was copied and nothing failed.
    pub fn success(&self) -> (b: bool)
        ensures
            b == (self.errors@.len() == 0 && self.db_migrated),
    {
        self.errors.len() == 0 && self.db_migrated
    }
}

// ------------------------------------------------------------------ paths

pub open spec fn is_sep(c: char) -> bool {
    c == '/' || c == '\\'
}

/// `dir` is only a drive, such as `C:`.
pub open spec fn is_bare_drive(dir: Seq<char>) -> bool {
    dir.len() == 2 && (('a' <= dir[0] <= 'z') || ('A' <= dir[0] <= 'Z')) && dir[1] == ':'
}

/// `name` (relative) appended to `dir`.
pub open spec fn join_path(dir: Seq<char>, name: Seq<char>) -> Seq<char> {
    if dir.len() == 0 || is_sep(dir.last()) || is_bare_drive(dir) {
        dir + name
    } else {
        dir + seq!['\\'] + name
    }
}

/// `name` (relative, without separators) appended to `dir`.
pub fn join_path_str(dir: &str, name: &str) -> (out: String)
    ensures
        out@ == join_path(dir@, name@),
{
    let mut d = chars_of(dir);
    let n = chars_of(name);
    let len = d.len();
    let bare_drive = len == 2 && ((d[0] >= 'a' && d[0] <= 'z') || (d[0] >= 'A' && d[0] <= 'Z'))
        && d[1] == ':';
    if !(len == 0 || d[len - 1] == '/' || d[len - 1] == '\\' || bare_drive) {
        d.push('\\');
    }
    append_chars(&mut d, n.as_slice());
    string_of(d.as_slice())
}

/// The default database file in the application directory.
pub fn get_default_db_path(app_dir: &str) -> (p: String)
    ensures
        p@ == join_path(app_dir@, "clipboard.db"@),
{
    join_path_str(app_dir, "clipboard.db")
}

// ------------------------------------------------------------------ configuration

/// The data directory in force: the configured one when set and not empty, else the
/// application directory.
pub open spec fn data_dir_spec(c: AppConfig, app_dir: Seq<char>) -> Seq<char> {
    match c.data_path {
        Some(p) => if p@.len() > 0 {
            p@
        } else {
            app_dir
        },
        None => app_dir,
    }
}

pub open spec fn default_id() -> Seq<char> {
    "default"@
}

pub open spec fn ids(dbs: Seq<DatabaseRegistration>) -> Seq<Seq<char>> {
    dbs.map_values(|d: DatabaseRegistration| d.id@)
}

/// The first index `i` with `p(i)`, searching from `k`.
pub open spec fn first_key_match(keys: Seq<Seq<char>>, key: Seq<char>, k: int) -> Option<int>
    decreases keys.len() - k,
{
    if k < 0 || k >= keys.len() {
        None
    } else if keys[k] == key {
        Some(k)
    } else {
        first_key_match(keys, key, k + 1)
    }
}

proof fn lemma_first_key_match_found(keys: Seq<Seq<char>>, key: Seq<char>, k: int)
    requires
        first_key_match(keys, key, k) is Some,
    ensures
        k <= first_key_match(keys, key, k)->0 < keys.len(),
        keys[first_key_match(keys, key, k)->0] == key,
    decreases keys.len() - k,
{
    if 0 <= k < keys.len() && keys[k] != key {
        lemma_first_key_match_found(keys, key, k + 1);
    }
}

proof fn lemma_first_key_match_none(keys: Seq<Seq<char>>, key: Seq<char>, k: int)
    requires
        0 <= k,
        first_key_match(keys, key, k) is None,
    ensures
        forall|j: int| k <= j < keys.len() ==> keys[j] != key,
    decreases keys.len() - k,
{
    if k < keys.len() {
        lemma_first_key_match_none(keys, key, k + 1);
    }
}

/// A key found is at a valid position, and is there.
pub proof fn lemma_first_key_match_bounds(keys: Seq<Seq<char>>, key: Seq<char>)
    ensures
        first_key_match(keys, key, 0) is Some ==> 0 <= first_key_match(keys, key, 0)->0
            < keys.len() && keys[first_key_match(keys, key, 0)->0] == key,
{
    if first_key_match(keys, key, 0) is Some {
        lemma_first_key_match_found(keys, key, 0);
    }
}

/// Appending `y` adds exactly `y` to what a list of ids contains.
pub proof fn lemma_push_contains_ids(t: Seq<Seq<char>>, y: Seq<char>, x: Seq<char>)
    ensures
        t.push(y).contains(x) <==> (t.contains(x) || y == x),
{
    if t.contains(x) {
        let k = choose|k: int| 0 <= k < t.len() && t[k] == x;
        assert(t.push(y)[k] == x);
    }
    if y == x {
        assert(t.push(y)[t.len() as int] == x);
    }
    if t.push(y).contains(x) {
        let k = choose|k: int| 0 <= k < t.push(y).len() && t.push(y)[k] == x;
        if k < t.len() {
            assert(t[k] == x);
        }
    }
}

/// A key is found exactly when the list contains it.
pub proof fn lemma_first_key_match_contains(keys: Seq<Seq<char>>, key: Seq<char>)
    ensures
        first_key_match(keys, key, 0) is Some <==> keys.contains(key),
{
    if first_key_match(keys, key, 0) is Some {
        lemma_first_key_match_found(keys, key, 0);
        let i = first_key_match(keys, key, 0)->0;
        assert(keys[i] == key);
    } else {
        lemma_first_key_match_none(keys, key, 0);
    }
}

impl AppConfig {
    /// Whether logs go to a file: off unless switched on.
    pub fn is_log_to_file(&self) -> (b: bool)
        ensures
            b == match self.log_to_file {
                Some(v) => v,
                None => false,
            },
    {
        match self.log_to_file {
            Some(v) => v,
            None => false,
        }
    }

    /// The configured data directory, when set and not empty.
    pub fn custom_data_dir(&self) -> (r: Option<String>)
        ensures
            match r {
                Some(p) => self.data_path is Some && self.data_path->0@.len() > 0 && p@
                    == self.data_path->0@,
                None => self.data_path is None || self.data_path->0@.len() == 0,
            },
    {
        match &self.data_path {
            Some(p) => if !p.as_str().is_empty() {
                Some(p.clone())
            } else {
                None
            },
            None => None,
        }
    }

    /// The data directory in force; `app_dir` is the directory of the application,
    /// which holds the default database.
    pub fn get_data_dir(&self, app_dir: &str) -> (d: String)
        ensures
            d@ == data_dir_spec(*self, app_dir@),
    {
        match self.custom_data_dir() {
            Some(p) => p,
            None => app_dir.to_owned(),
        }
    }

    /// The log file, `app.log` in the data directory.
    pub fn get_log_path(&self, app_dir: &str) -> (p: String)
        ensures
            p@ == join_path(data_dir_spec(*self, app_dir@), "app.log"@),
    {
        let dir = self.get_data_dir(app_dir);
        join_path_str(dir.as_str(), "app.log")
    }

    /// Makes the configuration name a registered, active database.
    ///
    /// `data_dir` is the data directory in use and `data_dir_key` its canonical form;
    /// `path_keys[i]` is the canonical form of the path of `databases[i]`. The database
    /// whose key matches is the legacy one; when none matches, the registration with
    /// id `default` takes the directory, or one is added for it. The active id is
    /// kept when it names a registration, else it becomes the legacy one, and the data
    /// path becomes the active registration's path.
    pub fn ensure_default_database(
        &mut self,
        data_dir: &str,
        data_dir_key: &str,
        path_keys: &[String],
    )
        requires
            path_keys@.len() == old(self).databases@.len(),
        ensures
            ({
                let olds = old(self).databases@;
                let news = final(self).databases@;
                let keys = crate::text::string_views(path_keys@);
                let matched = first_key_match(keys, data_dir_key@, 0);
                let dflt = first_key_match(ids(olds), default_id(), 0);
                let legacy: Seq<char> = match matched {
                    Some(i) => olds[i].id@,
                    None => default_id(),
                };
                &&& match matched {
                    Some(_) => news == olds,
                    None => match dflt {
                        Some(j) => news.len() == olds.len() && news[j].id == olds[j].id
                            && news[j].name == olds[j].name && news[j].path@ == data_dir@
                            && forall|k: int|
                            0 <= k < olds.len() && k != j ==> #[trigger] news[k] == olds[k],
                        None => news.len() == olds.len() + 1 && news.take(olds.len() as int)
                            == olds && news.last().id@ == default_id() && news.last().name@
                            == "默认数据库"@ && news.last().path@ == data_dir@,
                    },
                }
                &&& final(self).active_database_id is Some
                &&& final(self).active_database_id->0@ == match old(
                    self,
                ).active_database_id {
                    Some(a) => if ids(news).contains(a@) {
                        a@
                    } else {
                        legacy
                    },
                    None => legacy,
                }
                &&& ids(news).contains(final(self).active_database_id->0@)
                &&& match first_key_match(ids(news), final(self).active_database_id->0@, 0) {
                    Some(k) => final(self).data_path is Some && final(self).data_path->0@
                        == news[k].path@,
                    None => false,
                }
                &&& final(self).log_to_file == old(self).log_to_file
                &&& final(self).run_as_admin == old(self).run_as_admin
            }),
    {
        let ghost olds = self.databases@;
        let ghost keys = crate::text::string_views(path_keys@);
        let matched = key_index(path_keys, data_dir_key);
        let legacy_id: String = match matched {
            Some(m) => {
                proof {
                    lemma_first_key_match_found(keys, data_dir_key@, 0);
                }
                self.databases[m].id.clone()
            },
            None => {
                match registration_index(&self.databases, "default") {
                    Some(j) => {
                        proof {
                            lemma_first_key_match_found(ids(olds), default_id(), 0);
                        }
                        let reg = DatabaseRegistration {
                            id: self.databases[j].id.clone(),
                            name: self.databases[j].name.clone(),
                            path: data_dir.to_owned(),
                        };
                        let id = reg.id.clone();
                        self.databases.set(j, reg);
                        id
                    },
                    None => {
                        self.databases.push(
                            DatabaseRegistration {
                                id: "default".to_owned(),
                                name: "默认数据库".to_owned(),
                                path: data_dir.to_owned(),
                            },
                        );
                        "default".to_owned()
                    },
                }
            },
        };
        let ghost news = self.databases@;
        proof {
            // the legacy id names a registration
            match first_key_match(keys, data_dir_key@, 0) {
                Some(m) => {
                    assert(ids(news)[m] == legacy_id@);
                },
                None => match first_key_match(ids(olds), default_id(), 0) {
                    Some(j) => {
                        assert(ids(news)[j] == legacy_id@);
                    },
                    None => {
                        assert(ids(news)[news.len() - 1] == legacy_id@);
                    },
                },
            }
            assert(ids(news).contains(legacy_id@));
        }
        let active_id: String = match &self.active_database_id {
            Some(a) => {
                let found = registration_index(&self.databases, a.as_str());
                proof {
                    lemma_first_key_match_contains(ids(news), a@);
                }
                if found.is_some() {
                    a.clone()
                } else {
                    legacy_id
                }
            },
            None => legacy_id,
        };
        let k = registration_index(&self.databases, active_id.as_str());
        proof {
            lemma_first_key_match_contains(ids(news), active_id@);
            lemma_first_key_match_found(ids(news), active_id@, 0);
        }
        self.data_path = match k {
            Some(k) => Some(self.databases[k].path.clone()),
            None => None,
        };
        self.active_database_id = Some(active_id);
    }
}

/// The index of the first key equal to `key`.
fn key_index(keys: &[String], key: &str) -> (r: Option<usize>)
    ensures
        match r {
            Some(k) => first_key_match(crate::text::string_views(keys@), key@, 0) == Some(k as int),
            None => first_key_match(crate::text::string_views(keys@), key@, 0) is None,
        },
{
    let want = chars_of(key);
    let ghost views = crate::text::string_views(keys@);
    let mut i: usize = 0;
    while i < keys.len()
        invariant
            i <= keys@.len(),
            want@ == key@,
            views == crate::text::string_views(keys@),
            first_key_match(views, key@, 0) == first_key_match(views, key@, i as int),
        decreases keys.len() - i,
    {
        let c = chars_of(keys[i].as_str());
        assert(views[i as int] == keys@[i as int]@);
        if chars_eq(c.as_slice(), want.as_slice()) {
            return Some(i);
        }
        i += 1;
    }
    None
}

/// The index of the first registration with id `id`.
pub fn registration_index(dbs: &Vec<DatabaseRegistration>, id: &str) -> (r: Option<usize>)
    ensures
        match r {
            Some(k) => first_key_match(ids(dbs@), id@, 0) == Some(k as int),
            None => first_key_match(ids(dbs@), id@, 0) is None,
        },
{
    let want = chars_of(id);
    let mut i: usize = 0;
    while i < dbs.len()
        invariant
            i <= dbs@.len(),
            want@ == id@,
            first_key_match(ids(dbs@), id@, 0) == first_key_match(ids(dbs@), id@, i as int),
        decreases dbs.len() - i,
    {
        let c = chars_of(dbs[i].id.as_str());
        if chars_eq(c.as_slice(), want.as_slice()) {
            return Some(i);
        }
        i += 1;
    }
    None
}

} // verus!
