//! The SQL that reads and trims the clipboard history: the filter conditions of a
//! query, their parameters, and the statements built from them. Running the
//! statements is left to the caller.
use vstd::prelude::*;
use crate::database::QueryOptions;
use crate::merge_paste::{join_strings, join_with};
use crate::text::{
    append_chars, chars_of, split_chars, split_on, string_of, string_views, trim, trim_chars,
};

verus! {

/// A value bound to a `?` of a statement.
#[derive(Debug, Clone, PartialEq, Eq)]
pub enum SqlParam {
    Text(String),
    Int(i64),
}

/// The view of a parameter: its text, or its number.
pub open spec fn param_view(p: SqlParam) -> Result<Seq<char>, i64> {
    match p {
        SqlParam::Text(t) => Ok(t@),
        SqlParam::Int(n) => Err(n),
    }
}

pub open spec fn params_view(ps: Seq<SqlParam>) -> Seq<Result<Seq<char>, i64>> {
    ps.map_values(|p: SqlParam| param_view(p))
}

/// Conditions joined with `AND` into a `WHERE` clause, and their parameters in order.
#[derive(Debug, Clone)]
pub struct Conditions {
    pub conditions: Vec<String>,
    pub params: Vec<SqlParam>,
}

/// ` WHERE c1 AND c2 ...`, or nothing without conditions.
pub open spec fn where_spec(conds: Seq<Seq<char>>) -> Seq<char> {
    if conds.len() == 0 {
        seq![]
    } else {
        " WHERE "@ + join_with(conds, " AND "@)
    }
}

impl Conditions {
    pub open spec fn conds(&self) -> Seq<Seq<char>> {
        string_views(self.conditions@)
    }

    pub open spec fn args(&self) -> Seq<Result<Seq<char>, i64>> {
        params_view(self.params@)
    }

    /// No conditions.
    pub fn new() -> (c: Self)
        ensures
            c.conds() == Seq::<Seq<char>>::empty(),
            c.args() == Seq::<Result<Seq<char>, i64>>::empty(),
    {
        let c = Conditions { conditions: Vec::new(), params: Vec::new() };
        assert(c.conds() =~= seq![]);
        assert(c.args() =~= seq![]);
        c
    }

    /// Adds a condition without a parameter.
    pub fn condition(&mut self, cond: &str)
        ensures
            final(self).conds() == old(self).conds().push(cond@),
            final(self).args() == old(self).args(),
    {
        let ghost before = self.conditions@;
        let c = cond.to_owned();
        self.conditions.push(c);
        proof {
            crate::text::lemma_string_views_push(before, c);
        }
    }

    /// Adds a parameter.
    pub fn param(&mut self, p: SqlParam)
        ensures
            final(self).conds() == old(self).conds(),
            final(self).args() == old(self).args().push(param_view(p)),
    {
        let ghost before = self.params@;
        self.params.push(p);
        assert(params_view(self.params@) =~= params_view(before).push(param_view(p)));
    }

    /// Only items that are neither pinned nor favourites.
    pub fn clearable(&mut self)
        ensures
            final(self).conds() == old(self).conds().push("is_pinned = 0"@).push(
                "is_favorite = 0"@,
            ),
            final(self).args() == old(self).args(),
    {
        self.condition("is_pinned = 0");
        self.condition("is_favorite = 0");
    }

    /// Only items of a group: `group_id IS NULL` for the default group.
    pub fn group(&mut self, group_id: Option<i64>)
        ensures
            final(self).conds() == old(self).conds().push(group_cond(group_id)),
            final(self).args() == old(self).args() + group_args(group_id),
    {
        match group_id {
            Some(g) => {
                self.condition("group_id = ?");
                let ghost before = self.args();
                self.param(SqlParam::Int(g));
                assert(self.args() =~= before + group_args(group_id));
            },
            None => {
                self.condition("group_id IS NULL");
                assert(self.args() =~= self.args() + group_args(group_id));
            },
        }
    }

    /// The `WHERE` clause of the conditions.
    pub fn where_clause(&self) -> (w: String)
        ensures
            w@ == where_spec(self.conds()),
    {
        if self.conditions.len() == 0 {
            String::new()
        } else {
            let mut out = chars_of(" WHERE ");
            let joined = join_strings(self.conditions.as_slice(), " AND ");
            let j = chars_of(joined.as_str());
            append_chars(&mut out, j.as_slice());
            string_of(out.as_slice())
        }
    }
}

/// The condition on the group.
pub open spec fn group_cond(group_id: Option<i64>) -> Seq<char> {
    match group_id {
        Some(_) => "group_id = ?"@,
        None => "group_id IS NULL"@,
    }
}

/// The parameter of the group condition.
pub open spec fn group_args(group_id: Option<i64>) -> Seq<Result<Seq<char>, i64>> {
    match group_id {
        Some(g) => seq![Err(g)],
        None => seq![],
    }
}

// ------------------------------------------------------------------ search

/// A search text with the `LIKE` wildcards and the escape character escaped by `\`.
pub open spec fn escape_like(s: Seq<char>) -> Seq<char>
    decreases s.len(),
{
    if s.len() == 0 {
        seq![]
    } else {
        let c = s.last();
        escape_like(s.drop_last()) + if c == '\\' || c == '%' || c == '_' {
            seq!['\\', c]
        } else {
            seq![c]
        }
    }
}

/// The `LIKE` pattern that finds a search text anywhere.
pub fn like_pattern(search: &str) -> (p: String)
    ensures
        p@ == seq!['%'] + escape_like(search@) + seq!['%'],
{
    let s = chars_of(search);
    let mut out: Vec<char> = vec!['%'];
    let mut i: usize = 0;
    while i < s.len()
        invariant
            i <= s@.len(),
            out@ == seq!['%'] + escape_like(s@.take(i as int)),
        decreases s.len() - i,
    {
        let c = s[i];
        assert(s@.take(i + 1).drop_last() =~= s@.take(i as int));
        if c == '\\' || c == '%' || c == '_' {
            out.push('\\');
        }
        out.push(c);
        assert(out@ =~= seq!['%'] + escape_like(s@.take(i + 1)));
        i += 1;
    }
    assert(s@.take(i as int) =~= s@);
    out.push('%');
    string_of(out.as_slice())
}

// ------------------------------------------------------------------ types

/// The non-blank entries of a comma-separated list of types, trimmed.
pub open spec fn type_names(raw: Seq<char>) -> Seq<Seq<char>> {
    split_on(raw, ',').map_values(|p: Seq<char>| trim(p)).filter(|t: Seq<char>| t.len() > 0)
}

pub open spec fn opt_text(s: Option<&str>) -> Option<Seq<char>> {
    match s {
        Some(t) => Some(t@),
        None => None,
    }
}

/// The conditions on the types named by a list.
pub open spec fn type_conds(raw: Option<Seq<char>>) -> Seq<Seq<char>> {
    match raw {
        None => seq![],
        Some(r) => {
            let ts = type_names(r);
            if ts.len() == 0 {
                seq![]
            } else if ts.len() == 1 {
                seq!["content_type = ?"@]
            } else {
                seq!["content_type IN ("@ + placeholders(ts.len()) + ")"@]
            }
        },
    }
}

/// The parameters of the type conditions: the type names, in order.
pub open spec fn type_args(raw: Option<Seq<char>>) -> Seq<Result<Seq<char>, i64>> {
    match raw {
        None => seq![],
        Some(r) => type_names(r).map_values(|t: Seq<char>| Ok::<Seq<char>, i64>(t)),
    }
}

/// `n` question marks joined with commas.
pub open spec fn placeholders(n: nat) -> Seq<char>
    decreases n,
{
    if n == 0 {
        seq![]
    } else if n == 1 {
        seq!['?']
    } else {
        placeholders((n - 1) as nat) + seq![',', '?']
    }
}

fn trimmed_nonblank(raw: &str) -> (out: Vec<String>)
    ensures
        string_views(out@) == type_names(raw@),
{
    let c = chars_of(raw);
    let parts = split_chars(c.as_slice(), ',');
    let ghost ps = split_on(raw@, ',').map_values(|p: Seq<char>| trim(p));
    let mut out: Vec<String> = Vec::new();
    let mut i: usize = 0;
    while i < parts.len()
        invariant
            i <= parts@.len(),
            c@ == raw@,
            crate::text::char_views(parts@) == split_on(raw@, ','),
            ps == split_on(raw@, ',').map_values(|p: Seq<char>| trim(p)),
            string_views(out@) == ps.take(i as int).filter(|t: Seq<char>| t.len() > 0),
        decreases parts.len() - i,
    {
        let t = trim_chars(parts[i].as_slice());
        assert(ps[i as int] == t@);
        assert(ps.take(i + 1).drop_last() =~= ps.take(i as int));
        proof {
            reveal(Seq::filter);
        }
        if t.len() > 0 {
            let ghost before = out@;
            let s = string_of(t.as_slice());
            out.push(s);
            proof {
                crate::text::lemma_string_views_push(before, s);
            }
        }
        i += 1;
    }
    assert(ps.take(i as int) =~= ps);
    out
}

impl Conditions {
    /// Only items of the given types (a comma-separated list; blank entries ignored):
    /// `content_type = ?` for one type, `content_type IN (?,...)` for several, nothing
    /// when none is named.
    pub fn content_type(&mut self, content_type: Option<&str>)
        ensures
            final(self).conds() == old(self).conds() + type_conds(opt_text(content_type)),
            final(self).args() == old(self).args() + type_args(opt_text(content_type)),
    {
        let ghost conds_in = self.conds();
        let ghost args_in = self.args();
        let raw = match content_type {
            None => {
                assert(self.conds() =~= conds_in + type_conds(opt_text(content_type)));
                assert(self.args() =~= args_in + type_args(opt_text(content_type)));
                return;
            },
            Some(r) => r,
        };
        let types = trimmed_nonblank(raw);
        let ghost ts = type_names(raw@);
        if types.len() == 0 {
            assert(self.conds() =~= conds_in + type_conds(opt_text(content_type)));
            assert(self.args() =~= args_in + type_args(opt_text(content_type)));
            return;
        }
        if types.len() == 1 {
            self.condition("content_type = ?");
            let t = types[0].clone();
            self.param(SqlParam::Text(t));
            assert(ts[0] == t@);
            assert(self.conds() =~= conds_in + type_conds(opt_text(content_type)));
            assert(self.args() =~= args_in + type_args(opt_text(content_type)));
            return;
        }
        let mut cond = chars_of("content_type IN (");
        let ghost head = cond@;
        let mut i: usize = 0;
        let ghost args0 = self.args();
        let ghost conds0 = self.conds();
        while i < types.len()
            invariant
                i <= types@.len(),
                types@.len() >= 2,
                string_views(types@) == ts,
                cond@ == head + placeholders(i as nat),
                self.conds() == conds0,
                self.args() == args0 + ts.take(i as int).map_values(
                    |t: Seq<char>| Ok::<Seq<char>, i64>(t),
                ),
            decreases types.len() - i,
        {
            if i > 0 {
                cond.push(',');
            }
            cond.push('?');
            assert(cond@ =~= head + placeholders((i + 1) as nat));
            let t = types[i].clone();
            self.param(SqlParam::Text(t));
            assert(ts[i as int] == t@);
            assert(args0 + ts.take(i + 1).map_values(|t: Seq<char>| Ok::<Seq<char>, i64>(t))
                =~= (args0 + ts.take(i as int).map_values(|t: Seq<char>| Ok::<Seq<char>, i64>(t))).push(
                Ok(t@),
            ));
            i += 1;
        }
        assert(ts.take(i as int) =~= ts);
        cond.push(')');
        let s = string_of(cond.as_slice());
        self.condition(s.as_str());
        proof {
            reveal_strlit(")");
        }
        assert(")"@ =~= seq![')']);
        assert(s@ =~= "content_type IN ("@ + placeholders(ts.len()) + ")"@);
        assert(self.conds() =~= conds_in + type_conds(opt_text(content_type)));
        assert(self.args() =~= args_in + type_args(opt_text(content_type)));
    }
}

// ------------------------------------------------------------------ queries

pub open spec fn search_text(options: QueryOptions) -> Option<Seq<char>> {
    match options.search {
        Some(s) => if s@.len() > 0 {
            Some(s@)
        } else {
            None
        },
        None => None,
    }
}

pub open spec fn search_cond() -> Seq<char> {
    "(text_content LIKE ? ESCAPE '\\' OR file_paths LIKE ? ESCAPE '\\')"@
}

/// The conditions of a history query, in order.
pub open spec fn filter_conds(options: QueryOptions) -> Seq<Seq<char>> {
    (match search_text(options) {
        Some(_) => seq![search_cond()],
        None => seq![],
    }) + type_conds(opt_string(options.content_type)) + (if options.pinned_only {
        seq!["is_pinned = 1"@]
    } else {
        seq![]
    }) + (if options.favorite_only {
        seq!["is_favorite = 1"@]
    } else {
        seq![]
    }) + seq![group_cond(options.group_id)]
}

/// The parameters of a history query's conditions, in order.
pub open spec fn filter_args(options: QueryOptions) -> Seq<Result<Seq<char>, i64>> {
    (match search_text(options) {
        Some(t) => seq![
            Ok::<Seq<char>, i64>(seq!['%'] + escape_like(t) + seq!['%']),
            Ok::<Seq<char>, i64>(seq!['%'] + escape_like(t) + seq!['%']),
        ],
        None => seq![],
    }) + type_args(opt_string(options.content_type)) + group_args(options.group_id)
}

pub open spec fn opt_string(s: Option<String>) -> Option<Seq<char>> {
    match s {
        Some(t) => Some(t@),
        None => None,
    }
}

/// The filter of a history query: a search (text or file paths containing it), the
/// types, pinned only, favourites only, and the group.
pub fn build_filter_conditions(options: &QueryOptions) -> (c: Conditions)
    ensures
        c.conds() == filter_conds(*options),
        c.args() == filter_args(*options),
{
    let mut c = Conditions::new();
    let searching = match &options.search {
        Some(s) => !s.as_str().is_empty(),
        None => false,
    };
    if searching {
        let s = options.search.as_ref().unwrap();
        c.condition("(text_content LIKE ? ESCAPE '\\' OR file_paths LIKE ? ESCAPE '\\')");
        let pattern = like_pattern(s.as_str());
        c.param(SqlParam::Text(pattern.clone()));
        c.param(SqlParam::Text(pattern));
    }
    let ghost c1 = c.conds();
    let ghost a1 = c.args();
    let ct = match &options.content_type {
        Some(t) => Some(t.as_str()),
        None => None,
    };
    c.content_type(ct);
    let ghost c2 = c.conds();
    if options.pinned_only {
        c.condition("is_pinned = 1");
    }
    let ghost c3 = c.conds();
    if options.favorite_only {
        c.condition("is_favorite = 1");
    }
    let ghost c4 = c.conds();
    let ghost a2 = c.args();
    c.group(options.group_id);
    proof {
        assert(opt_text(ct) == opt_string(options.content_type));
        assert(c.conds() =~= filter_conds(*options));
        assert(c.args() =~= filter_args(*options));
    }
    c
}

pub open spec fn sort_clause(favorite_only: bool) -> Seq<char> {
    if favorite_only {
        " ORDER BY is_pinned DESC, favorite_order DESC, sort_order DESC, created_at DESC"@
    } else {
        " ORDER BY is_pinned DESC, sort_order DESC, created_at DESC"@
    }
}

pub open spec fn list_columns() -> Seq<char> {
    "id, content_type, NULL AS text_content, NULL AS html_content, NULL AS rtf_content, image_path, file_paths, NULL AS file_payload, content_hash, semantic_hash, preview, byte_size, image_width, image_height, is_pinned, is_favorite, favorite_order, sort_order, created_at, updated_at, access_count, last_accessed_at, char_count, source_app_name, source_app_icon, group_id"@
}

pub open spec fn search_columns() -> Seq<char> {
    "id, content_type, text_content, NULL AS html_content, NULL AS rtf_content, image_path, file_paths, NULL AS file_payload, content_hash, semantic_hash, preview, byte_size, image_width, image_height, is_pinned, is_favorite, favorite_order, sort_order, created_at, updated_at, access_count, last_accessed_at, char_count, source_app_name, source_app_icon, group_id"@
}

/// The statement listing the history: the columns (with the text when searching),
/// the filter, the order (pinned first; favourites by their order when listing
/// favourites), and a page when a limit is given.
pub open spec fn list_sql_spec(options: QueryOptions) -> Seq<char> {
    "SELECT "@ + (if search_text(options) is Some {
        search_columns()
    } else {
        list_columns()
    }) + " FROM clipboard_items"@ + where_spec(filter_conds(options)) + sort_clause(
        options.favorite_only,
    ) + (if options.limit is Some {
        " LIMIT ? OFFSET ?"@
    } else {
        seq![]
    })
}

pub open spec fn list_args_spec(options: QueryOptions) -> Seq<Result<Seq<char>, i64>> {
    filter_args(options) + match options.limit {
        Some(l) => seq![
            Err::<Seq<char>, i64>(l),
            Err::<Seq<char>, i64>(
                match options.offset {
                    Some(o) => o,
                    None => 0,
                },
            ),
        ],
        None => seq![],
    }
}

/// Paging: with a limit, the list statement ends in `LIMIT ? OFFSET ?`, bound to the
/// limit and to the requested offset (0 when none is given). Two requests that differ
/// only in their offset use the same statement and the same parameters but for the
/// last, so different offsets ask for different pages.
pub proof fn lemma_list_pages_by_offset(a: QueryOptions, b: QueryOptions, l: i64)
    requires
        a.limit == Some(l),
        b.search == a.search,
        b.content_type == a.content_type,
        b.pinned_only == a.pinned_only,
        b.favorite_only == a.favorite_only,
        b.group_id == a.group_id,
        b.limit == a.limit,
    ensures
        list_args_spec(a).len() >= 2,
        list_args_spec(a)[list_args_spec(a).len() - 2] == Err::<Seq<char>, i64>(l),
        list_args_spec(a).last() == Err::<Seq<char>, i64>(
            match a.offset {
                Some(o) => o,
                None => 0,
            },
        ),
        list_sql_spec(a) == list_sql_spec(b),
        list_args_spec(a).drop_last() == list_args_spec(b).drop_last(),
        a.offset is Some && b.offset is Some && a.offset != b.offset ==> list_args_spec(a)
            != list_args_spec(b),
{
    assert(filter_args(a) == filter_args(b));
    assert(filter_conds(a) == filter_conds(b));
    assert(search_text(a) == search_text(b));
    assert(list_args_spec(a).drop_last() =~= list_args_spec(b).drop_last());
    if a.offset is Some && b.offset is Some && a.offset != b.offset {
        assert(list_args_spec(a).last() != list_args_spec(b).last());
    }
}

fn cat(a: &str, b: &str) -> (r: String)
    ensures
        r@ == a@ + b@,
{
    let mut x = chars_of(a);
    let y = chars_of(b);
    append_chars(&mut x, y.as_slice());
    string_of(x.as_slice())
}

/// The statement listing the history and its parameters.
pub fn list_query(options: &QueryOptions) -> (q: (String, Vec<SqlParam>))
    ensures
        q.0@ == list_sql_spec(*options),
        params_view(q.1@) == list_args_spec(*options),
{
    let c = build_filter_conditions(options);
    let searching = match &options.search {
        Some(s) => !s.as_str().is_empty(),
        None => false,
    };
    let columns = if searching {
        "id, content_type, text_content, NULL AS html_content, NULL AS rtf_content, image_path, file_paths, NULL AS file_payload, content_hash, semantic_hash, preview, byte_size, image_width, image_height, is_pinned, is_favorite, favorite_order, sort_order, created_at, updated_at, access_count, last_accessed_at, char_count, source_app_name, source_app_icon, group_id"
    } else {
        "id, content_type, NULL AS text_content, NULL AS html_content, NULL AS rtf_content, image_path, file_paths, NULL AS file_payload, content_hash, semantic_hash, preview, byte_size, image_width, image_height, is_pinned, is_favorite, favorite_order, sort_order, created_at, updated_at, access_count, last_accessed_at, char_count, source_app_name, source_app_icon, group_id"
    };
    let sql = cat("SELECT ", columns);
    let sql = cat(sql.as_str(), " FROM clipboard_items");
    let w = c.where_clause();
    let sql = cat(sql.as_str(), w.as_str());
    let order = if options.favorite_only {
        " ORDER BY is_pinned DESC, favorite_order DESC, sort_order DESC, created_at DESC"
    } else {
        " ORDER BY is_pinned DESC, sort_order DESC, created_at DESC"
    };
    let sql = cat(sql.as_str(), order);
    let mut params = c.params;
    let ghost before = params@;
    let sql = match options.limit {
        Some(l) => {
            params.push(SqlParam::Int(l));
            let off = match options.offset {
                Some(o) => o,
                None => 0,
            };
            params.push(SqlParam::Int(off));
            assert(params_view(params@) =~= params_view(before) + seq![
                Err::<Seq<char>, i64>(l),
                Err::<Seq<char>, i64>(off),
            ]);
            cat(sql.as_str(), " LIMIT ? OFFSET ?")
        },
        None => {
            assert(params_view(params@) =~= params_view(before) + seq![]);
            sql
        },
    };
    (sql, params)
}

/// The statement counting the history under a filter, and its parameters.
pub fn count_query(options: &QueryOptions) -> (q: (String, Vec<SqlParam>))
    ensures
        q.0@ == "SELECT COUNT(*) FROM clipboard_items"@ + where_spec(filter_conds(*options)),
        params_view(q.1@) == filter_args(*options),
{
    let c = build_filter_conditions(options);
    let w = c.where_clause();
    let sql = cat("SELECT COUNT(*) FROM clipboard_items", w.as_str());
    (sql, c.params)
}

/// How many of the oldest clearable items go when the history is over its limit.
pub fn excess_items(current_count: i64, max_count: i64) -> (n: i64)
    ensures
        n == if max_count > 0 && current_count > max_count {
            current_count - max_count
        } else {
            0
        },
{
    if max_count <= 0 || current_count <= max_count {
        0
    } else {
        current_count - max_count
    }
}

// ------------------------------------------------------------------ trimming

/// The conditions that select the clearable items of a group.
pub open spec fn clearable_conds(group_id: Option<i64>) -> Seq<Seq<char>> {
    seq!["is_pinned = 0"@, "is_favorite = 0"@, group_cond(group_id)]
}

fn clearable_in(group_id: Option<i64>) -> (c: Conditions)
    ensures
        c.conds() == clearable_conds(group_id),
        c.args() == group_args(group_id),
{
    let mut c = Conditions::new();
    c.clearable();
    c.group(group_id);
    assert(c.conds() =~= clearable_conds(group_id));
    assert(c.args() =~= group_args(group_id));
    c
}

/// The statement counting the clearable items of a group, and its parameters.
pub fn count_clearable_query(group_id: Option<i64>) -> (q: (String, Vec<SqlParam>))
    ensures
        q.0@ == "SELECT COUNT(*) FROM clipboard_items"@ + where_spec(clearable_conds(group_id)),
        params_view(q.1@) == group_args(group_id),
{
    let c = clearable_in(group_id);
    let w = c.where_clause();
    (cat("SELECT COUNT(*) FROM clipboard_items", w.as_str()), c.params)
}

/// The condition on an item's age in days.
pub open spec fn age_cond() -> Seq<char> {
    "created_at < datetime('now', 'localtime', '-' || ? || ' days')"@
}

/// The three statements that remove items (with their parameters): the image paths
/// and the file payloads of the items that go, whose files are deleted afterwards,
/// and the removal itself.
#[derive(Debug)]
pub struct RemovalQueries {
    pub image_paths: (String, Vec<SqlParam>),
    pub file_payloads: (String, Vec<SqlParam>),
    pub delete: (String, Vec<SqlParam>),
}

fn with_int(c: Conditions, n: i64) -> (p: Vec<SqlParam>)
    ensures
        params_view(p@) == c.args().push(Err::<Seq<char>, i64>(n)),
{
    let mut c = c;
    c.param(SqlParam::Int(n));
    c.params
}

/// The statements that remove the `to_delete` oldest clearable items of a group.
pub fn trim_history_queries(group_id: Option<i64>, to_delete: i64) -> (q: RemovalQueries)
    ensures
        q.image_paths.0@ == "SELECT image_path FROM clipboard_items"@ + where_spec(
            clearable_conds(group_id).push("image_path IS NOT NULL"@),
        ) + " ORDER BY created_at ASC LIMIT ?"@,
        q.file_payloads.0@ == "SELECT file_payload FROM clipboard_items"@ + where_spec(
            clearable_conds(group_id).push("file_payload IS NOT NULL"@),
        ) + " ORDER BY created_at ASC LIMIT ?"@,
        q.delete.0@ == "DELETE FROM clipboard_items WHERE id IN (SELECT id FROM clipboard_items"@
            + where_spec(clearable_conds(group_id)) + " ORDER BY created_at ASC LIMIT ?)"@,
        params_view(q.image_paths.1@) == group_args(group_id).push(Err::<Seq<char>, i64>(to_delete)),
        params_view(q.file_payloads.1@) == group_args(group_id).push(
            Err::<Seq<char>, i64>(to_delete),
        ),
        params_view(q.delete.1@) == group_args(group_id).push(Err::<Seq<char>, i64>(to_delete)),
{
    let mut images = clearable_in(group_id);
    images.condition("image_path IS NOT NULL");
    let w = images.where_clause();
    let sql = cat("SELECT image_path FROM clipboard_items", w.as_str());
    let image_sql = cat(sql.as_str(), " ORDER BY created_at ASC LIMIT ?");
    let image_params = with_int(images, to_delete);

    let mut payloads = clearable_in(group_id);
    payloads.condition("file_payload IS NOT NULL");
    let w = payloads.where_clause();
    let sql = cat("SELECT file_payload FROM clipboard_items", w.as_str());
    let payload_sql = cat(sql.as_str(), " ORDER BY created_at ASC LIMIT ?");
    let payload_params = with_int(payloads, to_delete);

    let all = clearable_in(group_id);
    let w = all.where_clause();
    let sql = cat("DELETE FROM clipboard_items WHERE id IN (SELECT id FROM clipboard_items", w.as_str());
    let delete_sql = cat(sql.as_str(), " ORDER BY created_at ASC LIMIT ?)");
    let delete_params = with_int(all, to_delete);
    RemovalQueries {
        image_paths: (image_sql, image_params),
        file_payloads: (payload_sql, payload_params),
        delete: (delete_sql, delete_params),
    }
}

/// The statements that remove the clearable items of a group older than `days` days.
pub fn older_than_queries(group_id: Option<i64>, days: i64) -> (q: RemovalQueries)
    ensures
        q.image_paths.0@ == "SELECT image_path FROM clipboard_items"@ + where_spec(
            clearable_conds(group_id).push("image_path IS NOT NULL"@).push(age_cond()),
        ),
        q.file_payloads.0@ == "SELECT file_payload FROM clipboard_items"@ + where_spec(
            clearable_conds(group_id).push("file_payload IS NOT NULL"@).push(age_cond()),
        ),
        q.delete.0@ == "DELETE FROM clipboard_items"@ + where_spec(
            clearable_conds(group_id).push(age_cond()),
        ),
        params_view(q.image_paths.1@) == group_args(group_id).push(Err::<Seq<char>, i64>(days)),
        params_view(q.file_payloads.1@) == group_args(group_id).push(Err::<Seq<char>, i64>(days)),
        params_view(q.delete.1@) == group_args(group_id).push(Err::<Seq<char>, i64>(days)),
{
    let age = "created_at < datetime('now', 'localtime', '-' || ? || ' days')";
    let mut images = clearable_in(group_id);
    images.condition("image_path IS NOT NULL");
    images.condition(age);
    let w = images.where_clause();
    let image_sql = cat("SELECT image_path FROM clipboard_items", w.as_str());
    let image_params = with_int(images, days);

    let mut payloads = clearable_in(group_id);
    payloads.condition("file_payload IS NOT NULL");
    payloads.condition(age);
    let w = payloads.where_clause();
    let payload_sql = cat("SELECT file_payload FROM clipboard_items", w.as_str());
    let payload_params = with_int(payloads, days);

    let mut all = clearable_in(group_id);
    all.condition(age);
    let w = all.where_clause();
    let delete_sql = cat("DELETE FROM clipboard_items", w.as_str());
    let delete_params = with_int(all, days);
    RemovalQueries {
        image_paths: (image_sql, image_params),
        file_payloads: (payload_sql, payload_params),
        delete: (delete_sql, delete_params),
    }
}

/// The conditions on the items that clearing the history removes: not pinned, not a
/// favourite, in the group, of the named types, and not locked.
pub open spec fn clear_conds(group_id: Option<i64>, content_type: Option<Seq<char>>) -> Seq<
    Seq<char>,
> {
    (clearable_conds(group_id) + type_conds(content_type)).push("is_locked = 0"@)
}

pub open spec fn clear_args(group_id: Option<i64>, content_type: Option<Seq<char>>) -> Seq<
    Result<Seq<char>, i64>,
> {
    group_args(group_id) + type_args(content_type)
}

fn clear_in(group_id: Option<i64>, content_type: Option<&str>) -> (c: Conditions)
    ensures
        c.conds() == clear_conds(group_id, opt_text(content_type)),
        c.args() == clear_args(group_id, opt_text(content_type)),
{
    let mut c = clearable_in(group_id);
    c.content_type(content_type);
    c.condition("is_locked = 0");
    c
}

/// The statements that clear the history of a group, optionally of some content types
/// only: the image paths and file payloads of the items that go, and their removal.
/// Pinned items, favourites and locked items stay.
pub fn clear_history_queries(group_id: Option<i64>, content_type: Option<&str>) -> (q:
    RemovalQueries)
    ensures
        q.image_paths.0@ == "SELECT image_path FROM clipboard_items"@ + where_spec(
            clear_conds(group_id, opt_text(content_type)).push("image_path IS NOT NULL"@),
        ),
        q.file_payloads.0@ == "SELECT file_payload FROM clipboard_items"@ + where_spec(
            clear_conds(group_id, opt_text(content_type)).push("file_payload IS NOT NULL"@),
        ),
        q.delete.0@ == "DELETE FROM clipboard_items"@ + where_spec(
            clear_conds(group_id, opt_text(content_type)),
        ),
        params_view(q.image_paths.1@) == clear_args(group_id, opt_text(content_type)),
        params_view(q.file_payloads.1@) == clear_args(group_id, opt_text(content_type)),
        params_view(q.delete.1@) == clear_args(group_id, opt_text(content_type)),
{
    let mut images = clear_in(group_id, content_type);
    images.condition("image_path IS NOT NULL");
    let w = images.where_clause();
    let image_sql = cat("SELECT image_path FROM clipboard_items", w.as_str());

    let mut payloads = clear_in(group_id, content_type);
    payloads.condition("file_payload IS NOT NULL");
    let w = payloads.where_clause();
    let payload_sql = cat("SELECT file_payload FROM clipboard_items", w.as_str());

    let all = clear_in(group_id, content_type);
    let w = all.where_clause();
    let delete_sql = cat("DELETE FROM clipboard_items", w.as_str());
    RemovalQueries {
        image_paths: (image_sql, images.params),
        file_payloads: (payload_sql, payloads.params),
        delete: (delete_sql, all.params),
    }
}

/// Clearing the history keeps pinned items, favourites and locked items: its removal
/// applies all three conditions, whatever the group and types.
pub proof fn lemma_clear_keeps_protected_items(group_id: Option<i64>, content_type: Option<Seq<char>>)
    ensures
        clear_conds(group_id, content_type).contains("is_pinned = 0"@),
        clear_conds(group_id, content_type).contains("is_favorite = 0"@),
        clear_conds(group_id, content_type).contains("is_locked = 0"@),
{
    let c = clear_conds(group_id, content_type);
    assert(c[0] == "is_pinned = 0"@);
    assert(c[1] == "is_favorite = 0"@);
    assert(c[c.len() - 1] == "is_locked = 0"@);
}

} // verus!
