//! Bringing an older clipboard database up to the current schema.
//!
//! Every migration is guarded by what the database already has, so that opening a
//! database runs only what it lacks: `migration_plan` takes the columns the item table
//! has (and whether the old full-text table and the old group links exist) and lists
//! the steps to run, in order. The caller runs them against the database.
use vstd::prelude::*;
use crate::text::{chars_eq, chars_of, string_views};

verus! {

/// A column added after the table rebuild, with its definition.
#[derive(Debug, Clone, Copy, PartialEq, Eq, Structural)]
pub enum LateColumn {
    SourceTitle,
    SourceUrl,
    SourceFileName,
    IsLocked,
}

pub open spec fn late_column_name(c: LateColumn) -> Seq<char> {
    match c {
        LateColumn::SourceTitle => "source_title"@,
        LateColumn::SourceUrl => "source_url"@,
        LateColumn::SourceFileName => "source_file_name"@,
        LateColumn::IsLocked => "is_locked"@,
    }
}

pub open spec fn late_column_definition(c: LateColumn) -> Seq<char> {
    match c {
        LateColumn::IsLocked => "INTEGER NOT NULL DEFAULT 0"@,
        _ => "TEXT"@,
    }
}

impl LateColumn {
    /// The column's name.
    pub fn name(self) -> (n: &'static str)
        ensures
            n@ == late_column_name(self),
    {
        match self {
            LateColumn::SourceTitle => "source_title",
            LateColumn::SourceUrl => "source_url",
            LateColumn::SourceFileName => "source_file_name",
            LateColumn::IsLocked => "is_locked",
        }
    }

    /// The column's type and constraints.
    pub fn definition(self) -> (d: &'static str)
        ensures
            d@ == late_column_definition(self),
    {
        match self {
            LateColumn::IsLocked => "INTEGER NOT NULL DEFAULT 0",
            _ => "TEXT",
        }
    }

    /// The statement that adds the column.
    pub fn add_sql(self) -> (s: String)
        ensures
            s@ == "ALTER TABLE clipboard_items ADD COLUMN "@ + late_column_name(self) + " "@
                + late_column_definition(self) + ";"@,
    {
        let mut out = chars_of("ALTER TABLE clipboard_items ADD COLUMN ");
        let n = chars_of(self.name());
        crate::text::append_chars(&mut out, n.as_slice());
        let sp = chars_of(" ");
        crate::text::append_chars(&mut out, sp.as_slice());
        let d = chars_of(self.definition());
        crate::text::append_chars(&mut out, d.as_slice());
        let semi = chars_of(";");
        crate::text::append_chars(&mut out, semi.as_slice());
        crate::text::string_of(out.as_slice())
    }
}

/// One step of bringing a database up to date.
#[derive(Debug, Clone, Copy, PartialEq, Eq, Structural)]
pub enum MigrationStep {
    /// Add `sort_order`, set to the id.
    AddSortOrder,
    /// Drop the old full-text table and its triggers.
    DropFullText,
    /// Add `char_count`, filled from the text.
    AddCharCount,
    /// Add `image_width` and `image_height`.
    AddImageSize,
    /// Add `source_app_name` and `source_app_icon`.
    AddSourceApp,
    /// Rebuild the item table with `group_id`, taking each item's group from the old
    /// link table when it exists, keeping the newest of each repeated hash per group.
    RebuildWithGroups { from_item_groups: bool },
    /// Add `favorite_order`, set from the sort order of favorites.
    AddFavoriteOrder,
    /// Make the content-hash indexes non-unique.
    RelaxHashIndexes,
    /// Add `semantic_hash`.
    AddSemanticHash,
    /// Fill missing semantic hashes (once per database).
    BackfillSemanticHashes,
    /// Index the semantic hashes.
    IndexSemanticHashes,
    /// Give favorites distinct, ordered positions.
    NormalizeFavoriteOrder,
    /// Introduce the `url` content type (once per database).
    MigrateUrlContentType,
    /// Add `file_payload`.
    AddFilePayload,
    /// Add one of the late columns.
    AddColumn(LateColumn),
}

/// What the database has before the migrations run.
#[derive(Debug, Clone)]
pub struct SchemaFacts {
    /// Whether the item table exists at all.
    pub table_exists: bool,
    /// The item table's columns.
    pub columns: Vec<String>,
    /// Whether the old full-text table exists.
    pub has_full_text: bool,
    /// Whether the old item-to-group link table exists.
    pub has_item_groups: bool,
}

/// The columns of the rebuilt item table.
pub open spec fn rebuilt_columns() -> Seq<Seq<char>> {
    seq![
        "id"@,
        "content_type"@,
        "text_content"@,
        "html_content"@,
        "rtf_content"@,
        "image_path"@,
        "file_paths"@,
        "content_hash"@,
        "semantic_hash"@,
        "preview"@,
        "byte_size"@,
        "image_width"@,
        "image_height"@,
        "is_pinned"@,
        "is_favorite"@,
        "favorite_order"@,
        "sort_order"@,
        "created_at"@,
        "updated_at"@,
        "access_count"@,
        "last_accessed_at"@,
        "char_count"@,
        "source_app_name"@,
        "source_app_icon"@,
        "group_id"@,
    ]
}

/// `step` when the column is missing, nothing otherwise.
pub open spec fn unless_has(cols: Seq<Seq<char>>, name: Seq<char>, step: MigrationStep) -> Seq<
    MigrationStep,
> {
    if cols.contains(name) {
        seq![]
    } else {
        seq![step]
    }
}

/// The columns the steps before the rebuild add.
pub open spec fn early_columns(cols: Seq<Seq<char>>) -> Seq<Seq<char>> {
    (if cols.contains("sort_order"@) {
        seq![]
    } else {
        seq!["sort_order"@]
    }) + (if cols.contains("char_count"@) {
        seq![]
    } else {
        seq!["char_count"@]
    }) + (if cols.contains("image_width"@) {
        seq![]
    } else {
        seq!["image_width"@, "image_height"@]
    }) + (if cols.contains("source_app_name"@) {
        seq![]
    } else {
        seq!["source_app_name"@, "source_app_icon"@]
    })
}

/// The columns after the rebuild (or after the early steps, when there is none).
pub open spec fn mid_columns(cols: Seq<Seq<char>>) -> Seq<Seq<char>> {
    if cols.contains("group_id"@) {
        cols + early_columns(cols)
    } else {
        rebuilt_columns()
    }
}

/// The late steps, each for a column the table lacks after the rebuild.
pub open spec fn late_steps(mid: Seq<Seq<char>>) -> Seq<MigrationStep> {
    unless_has(mid, "file_payload"@, MigrationStep::AddFilePayload) + unless_has(
        mid,
        "source_title"@,
        MigrationStep::AddColumn(LateColumn::SourceTitle),
    ) + unless_has(mid, "source_url"@, MigrationStep::AddColumn(LateColumn::SourceUrl))
        + unless_has(mid, "source_file_name"@, MigrationStep::AddColumn(LateColumn::SourceFileName))
        + unless_has(mid, "is_locked"@, MigrationStep::AddColumn(LateColumn::IsLocked))
}

/// The steps up to the rebuild, each guarded by the original columns.
pub open spec fn early_steps(cols: Seq<Seq<char>>, has_fts: bool, has_item_groups: bool) -> Seq<
    MigrationStep,
> {
    unless_has(cols, "sort_order"@, MigrationStep::AddSortOrder) + (if has_fts {
        seq![MigrationStep::DropFullText]
    } else {
        seq![]
    }) + unless_has(cols, "char_count"@, MigrationStep::AddCharCount) + unless_has(
        cols,
        "image_width"@,
        MigrationStep::AddImageSize,
    ) + unless_has(cols, "source_app_name"@, MigrationStep::AddSourceApp) + unless_has(
        cols,
        "group_id"@,
        MigrationStep::RebuildWithGroups { from_item_groups: has_item_groups },
    )
}

/// The steps between the rebuild and the late columns.
pub open spec fn middle_steps(mid: Seq<Seq<char>>) -> Seq<MigrationStep> {
    unless_has(mid, "favorite_order"@, MigrationStep::AddFavoriteOrder) + seq![
        MigrationStep::RelaxHashIndexes,
    ] + unless_has(mid, "semantic_hash"@, MigrationStep::AddSemanticHash) + seq![
        MigrationStep::BackfillSemanticHashes,
        MigrationStep::IndexSemanticHashes,
        MigrationStep::NormalizeFavoriteOrder,
        MigrationStep::MigrateUrlContentType,
    ]
}

/// The steps that bring the database up to date, in order. Each column step runs only
/// when its column is missing at that point; the rebuild replaces the table with one
/// of fixed columns, so what the later steps find depends on whether it ran.
pub open spec fn plan_spec(cols: Seq<Seq<char>>, has_fts: bool, has_item_groups: bool) -> Seq<
    MigrationStep,
> {
    let mid = mid_columns(cols);
    early_steps(cols, has_fts, has_item_groups) + middle_steps(mid) + late_steps(mid)
}

/// The columns the late steps look for, in order.
pub open spec fn late_names() -> Seq<Seq<char>> {
    seq![
        "favorite_order"@,
        "semantic_hash"@,
        "file_payload"@,
        "source_title"@,
        "source_url"@,
        "source_file_name"@,
        "is_locked"@,
    ]
}

/// The columns once every step has run: those after the rebuild, and the late ones
/// that were missing.
pub open spec fn final_columns(cols: Seq<Seq<char>>) -> Seq<Seq<char>> {
    let mid = mid_columns(cols);
    mid + late_names().filter(|n: Seq<char>| !mid.contains(n))
}

/// The steps that run on every open, whatever the database has.
pub open spec fn steps_every_open() -> Seq<MigrationStep> {
    seq![
        MigrationStep::RelaxHashIndexes,
        MigrationStep::BackfillSemanticHashes,
        MigrationStep::IndexSemanticHashes,
        MigrationStep::NormalizeFavoriteOrder,
        MigrationStep::MigrateUrlContentType,
    ]
}

fn has_column(cols: &Vec<String>, name: &str) -> (b: bool)
    ensures
        b == string_views(cols@).contains(name@),
{
    let n = chars_of(name);
    let mut i: usize = 0;
    while i < cols.len()
        invariant
            i <= cols@.len(),
            n@ == name@,
            forall|j: int| 0 <= j < i ==> cols@[j]@ != name@,
        decreases cols.len() - i,
    {
        let c = chars_of(cols[i].as_str());
        if chars_eq(c.as_slice(), n.as_slice()) {
            assert(string_views(cols@)[i as int] == name@);
            return true;
        }
        i += 1;
    }
    assert forall|j: int| 0 <= j < string_views(cols@).len() implies string_views(cols@)[j]
        != name@ by {
        assert(string_views(cols@)[j] == cols@[j]@);
    }
    false
}

fn has_rebuilt_column(name: &str) -> (b: bool)
    ensures
        b == rebuilt_columns().contains(name@),
{
    let names = [
        "id",
        "content_type",
        "text_content",
        "html_content",
        "rtf_content",
        "image_path",
        "file_paths",
        "content_hash",
        "semantic_hash",
        "preview",
        "byte_size",
        "image_width",
        "image_height",
        "is_pinned",
        "is_favorite",
        "favorite_order",
        "sort_order",
        "created_at",
        "updated_at",
        "access_count",
        "last_accessed_at",
        "char_count",
        "source_app_name",
        "source_app_icon",
        "group_id",
    ];
    let n = chars_of(name);
    let ghost r = rebuilt_columns();
    assert(names@.len() == r.len());
    assert forall|j: int| 0 <= j < r.len() implies #[trigger] names@[j]@ == r[j] by {}
    let mut i: usize = 0;
    while i < 25
        invariant
            i <= 25,
            names@.len() == 25,
            r == rebuilt_columns(),
            n@ == name@,
            forall|j: int| 0 <= j < r.len() ==> #[trigger] names@[j]@ == r[j],
            forall|j: int| 0 <= j < i ==> r[j] != name@,
        decreases 25 - i,
    {
        let c = chars_of(names[i]);
        if chars_eq(c.as_slice(), n.as_slice()) {
            assert(r[i as int] == name@);
            return true;
        }
        i += 1;
    }
    false
}

fn push_name(v: &mut Vec<String>, present: bool, name: &str)
    ensures
        string_views(final(v)@) == string_views(old(v)@) + if present {
            seq![]
        } else {
            seq![name@]
        },
{
    let ghost before = v@;
    if !present {
        v.push(name.to_owned());
        proof {
            crate::text::lemma_string_views_push(before, v@.last());
        }
    }
    assert(string_views(v@) =~= string_views(before) + if present {
        seq![]
    } else {
        seq![name@]
    });
}

/// The columns the steps before the rebuild add.
fn early_list(cols: &Vec<String>) -> (v: Vec<String>)
    ensures
        string_views(v@) == early_columns(string_views(cols@)),
{
    let mut v: Vec<String> = Vec::new();
    assert(string_views(v@) =~= seq![]);
    push_name(&mut v, has_column(cols, "sort_order"), "sort_order");
    push_name(&mut v, has_column(cols, "char_count"), "char_count");
    let iw = has_column(cols, "image_width");
    push_name(&mut v, iw, "image_width");
    push_name(&mut v, iw, "image_height");
    let sa = has_column(cols, "source_app_name");
    push_name(&mut v, sa, "source_app_name");
    push_name(&mut v, sa, "source_app_icon");
    assert(string_views(v@) =~= early_columns(string_views(cols@)));
    v
}

/// Whether the table after the rebuild (or after the early steps) has a column.
fn mid_has(facts: &SchemaFacts, name: &str) -> (b: bool)
    ensures
        b == mid_columns(string_views(facts.columns@)).contains(name@),
{
    let ghost cols = string_views(facts.columns@);
    if has_column(&facts.columns, "group_id") {
        let early = early_list(&facts.columns);
        let b = has_column(&facts.columns, name) || has_column(&early, name);
        proof {
            lemma_contains_concat(cols, string_views(early@), name@);
            lemma_concat_contains(cols, string_views(early@), name@);
        }
        b
    } else {
        has_rebuilt_column(name)
    }
}

fn push_unless(steps: &mut Vec<MigrationStep>, present: bool, step: MigrationStep)
    ensures
        final(steps)@ == old(steps)@ + if present {
            seq![]
        } else {
            seq![step]
        },
{
    if !present {
        steps.push(step);
    }
    assert(final(steps)@ =~= old(steps)@ + if present {
        seq![]
    } else {
        seq![step]
    });
}

fn early_plan(facts: &SchemaFacts) -> (steps: Vec<MigrationStep>)
    ensures
        steps@ == early_steps(
            string_views(facts.columns@),
            facts.has_full_text,
            facts.has_item_groups,
        ),
{
    let mut steps: Vec<MigrationStep> = Vec::new();
    let c = &facts.columns;
    push_unless(&mut steps, has_column(c, "sort_order"), MigrationStep::AddSortOrder);
    push_unless(&mut steps, !facts.has_full_text, MigrationStep::DropFullText);
    push_unless(&mut steps, has_column(c, "char_count"), MigrationStep::AddCharCount);
    push_unless(&mut steps, has_column(c, "image_width"), MigrationStep::AddImageSize);
    push_unless(&mut steps, has_column(c, "source_app_name"), MigrationStep::AddSourceApp);
    push_unless(
        &mut steps,
        has_column(c, "group_id"),
        MigrationStep::RebuildWithGroups { from_item_groups: facts.has_item_groups },
    );
    assert(steps@ =~= early_steps(
        string_views(facts.columns@),
        facts.has_full_text,
        facts.has_item_groups,
    ));
    steps
}

fn middle_plan(facts: &SchemaFacts) -> (steps: Vec<MigrationStep>)
    ensures
        steps@ == middle_steps(mid_columns(string_views(facts.columns@))),
{
    let mut steps: Vec<MigrationStep> = Vec::new();
    push_unless(&mut steps, mid_has(facts, "favorite_order"), MigrationStep::AddFavoriteOrder);
    steps.push(MigrationStep::RelaxHashIndexes);
    push_unless(&mut steps, mid_has(facts, "semantic_hash"), MigrationStep::AddSemanticHash);
    steps.push(MigrationStep::BackfillSemanticHashes);
    steps.push(MigrationStep::IndexSemanticHashes);
    steps.push(MigrationStep::NormalizeFavoriteOrder);
    steps.push(MigrationStep::MigrateUrlContentType);
    assert(steps@ =~= middle_steps(mid_columns(string_views(facts.columns@))));
    steps
}

fn late_plan(facts: &SchemaFacts) -> (steps: Vec<MigrationStep>)
    ensures
        steps@ == late_steps(mid_columns(string_views(facts.columns@))),
{
    let mut steps: Vec<MigrationStep> = Vec::new();
    push_unless(&mut steps, mid_has(facts, "file_payload"), MigrationStep::AddFilePayload);
    push_unless(
        &mut steps,
        mid_has(facts, "source_title"),
        MigrationStep::AddColumn(LateColumn::SourceTitle),
    );
    push_unless(
        &mut steps,
        mid_has(facts, "source_url"),
        MigrationStep::AddColumn(LateColumn::SourceUrl),
    );
    push_unless(
        &mut steps,
        mid_has(facts, "source_file_name"),
        MigrationStep::AddColumn(LateColumn::SourceFileName),
    );
    push_unless(
        &mut steps,
        mid_has(facts, "is_locked"),
        MigrationStep::AddColumn(LateColumn::IsLocked),
    );
    assert(steps@ =~= late_steps(mid_columns(string_views(facts.columns@))));
    steps
}

/// The steps that bring a database up to date (see `plan_spec`); none when there is
/// no item table yet.
pub fn migration_plan(facts: &SchemaFacts) -> (steps: Vec<MigrationStep>)
    ensures
        !facts.table_exists ==> steps@.len() == 0,
        facts.table_exists ==> steps@ == plan_spec(
            string_views(facts.columns@),
            facts.has_full_text,
            facts.has_item_groups,
        ),
{
    if !facts.table_exists {
        return Vec::new();
    }
    let mut steps = early_plan(facts);
    let mut middle = middle_plan(facts);
    let mut late = late_plan(facts);
    steps.append(&mut middle);
    steps.append(&mut late);
    steps
}

/// Whether an interrupted rebuild left only the new table behind, to be renamed back.
pub fn recovers_orphan_table(has_new: bool, has_old: bool) -> (b: bool)
    ensures
        b == (has_new && !has_old),
{
    has_new && !has_old
}

/// What introducing the `url` content type does.
#[derive(Debug, Clone, Copy, PartialEq, Eq, Structural)]
pub enum UrlTypeMigration {
    /// No item table: nothing.
    Skip,
    /// Already done (by an older rebuild or an earlier run): only record it as done.
    RecordDone,
    /// Migrate the links, then record it as done.
    Run,
}

/// What introducing the `url` content type does, given whether the item table exists,
/// whether its definition already names `url`, and whether it was recorded as done.
pub fn url_type_migration(table_exists: bool, legacy_done: bool, recorded_done: bool) -> (m:
    UrlTypeMigration)
    ensures
        m == if !table_exists {
            UrlTypeMigration::Skip
        } else if legacy_done || recorded_done {
            UrlTypeMigration::RecordDone
        } else {
            UrlTypeMigration::Run
        },
{
    if !table_exists {
        UrlTypeMigration::Skip
    } else if legacy_done || recorded_done {
        UrlTypeMigration::RecordDone
    } else {
        UrlTypeMigration::Run
    }
}

proof fn lemma_contains_concat(a: Seq<Seq<char>>, b: Seq<Seq<char>>, x: Seq<char>)
    ensures
        a.contains(x) ==> (a + b).contains(x),
        b.contains(x) ==> (a + b).contains(x),
{
    if a.contains(x) {
        let k = choose|k: int| 0 <= k < a.len() && a[k] == x;
        assert((a + b)[k] == x);
    }
    if b.contains(x) {
        let k = choose|k: int| 0 <= k < b.len() && b[k] == x;
        assert((a + b)[a.len() + k] == x);
    }
}

proof fn lemma_concat_contains(a: Seq<Seq<char>>, b: Seq<Seq<char>>, x: Seq<char>)
    ensures
        (a + b).contains(x) ==> a.contains(x) || b.contains(x),
{
    if (a + b).contains(x) {
        let k = choose|k: int| 0 <= k < (a + b).len() && (a + b)[k] == x;
        if k < a.len() {
            assert(a[k] == x);
        } else {
            assert(b[k - a.len()] == x);
        }
    }
}

/// After the rebuild (or the early steps) every column up to `group_id` is there.
proof fn lemma_mid_has_early_columns(cols: Seq<Seq<char>>)
    ensures
        mid_columns(cols).contains("sort_order"@),
        mid_columns(cols).contains("char_count"@),
        mid_columns(cols).contains("image_width"@),
        mid_columns(cols).contains("source_app_name"@),
        mid_columns(cols).contains("group_id"@),
{
    if cols.contains("group_id"@) {
        let e = early_columns(cols);
        let a: int = if cols.contains("sort_order"@) { 0 } else { 1 };
        let b: int = a + if cols.contains("char_count"@) { 0int } else { 1int };
        let c: int = b + if cols.contains("image_width"@) { 0int } else { 2int };
        if !cols.contains("sort_order"@) {
            assert(e[0] == "sort_order"@);
        }
        if !cols.contains("char_count"@) {
            assert(e[a] == "char_count"@);
        }
        if !cols.contains("image_width"@) {
            assert(e[b] == "image_width"@);
        }
        if !cols.contains("source_app_name"@) {
            assert(e[c] == "source_app_name"@);
        }
        lemma_contains_concat(cols, e, "sort_order"@);
        lemma_contains_concat(cols, e, "char_count"@);
        lemma_contains_concat(cols, e, "image_width"@);
        lemma_contains_concat(cols, e, "source_app_name"@);
        lemma_contains_concat(cols, e, "group_id"@);
    } else {
        let r = rebuilt_columns();
        assert(r[16] == "sort_order"@);
        assert(r[21] == "char_count"@);
        assert(r[11] == "image_width"@);
        assert(r[22] == "source_app_name"@);
        assert(r[24] == "group_id"@);
    }
}

/// Every column that a step looks for is there once the steps have run.
proof fn lemma_final_has(cols: Seq<Seq<char>>, x: Seq<char>)
    requires
        mid_columns(cols).contains(x) || late_names().contains(x),
    ensures
        final_columns(cols).contains(x),
{
    let mid = mid_columns(cols);
    let pred = |n: Seq<char>| !mid.contains(n);
    let tail = late_names().filter(pred);
    assert(final_columns(cols) == mid + tail);
    if mid.contains(x) {
        lemma_contains_concat(mid, tail, x);
    } else {
        let i = choose|i: int| 0 <= i < late_names().len() && late_names()[i] == x;
        late_names().lemma_filter_contains(pred, i);
        lemma_contains_concat(mid, tail, x);
    }
}

/// Once the steps have run, running the migrations again finds nothing missing: only
/// the steps that run on every open remain.
pub proof fn lemma_migrations_are_idempotent(cols: Seq<Seq<char>>, has_item_groups: bool)
    ensures
        plan_spec(final_columns(cols), false, has_item_groups) == steps_every_open(),
{
    let fin = final_columns(cols);
    let l = late_names();
    lemma_mid_has_early_columns(cols);
    lemma_final_has(cols, "sort_order"@);
    lemma_final_has(cols, "char_count"@);
    lemma_final_has(cols, "image_width"@);
    lemma_final_has(cols, "source_app_name"@);
    lemma_final_has(cols, "group_id"@);
    assert(l[0] == "favorite_order"@);
    assert(l[1] == "semantic_hash"@);
    assert(l[2] == "file_payload"@);
    assert(l[3] == "source_title"@);
    assert(l[4] == "source_url"@);
    assert(l[5] == "source_file_name"@);
    assert(l[6] == "is_locked"@);
    lemma_final_has(cols, l[0]);
    lemma_final_has(cols, l[1]);
    lemma_final_has(cols, l[2]);
    lemma_final_has(cols, l[3]);
    lemma_final_has(cols, l[4]);
    lemma_final_has(cols, l[5]);
    lemma_final_has(cols, l[6]);
    assert(early_columns(fin) =~= seq![]);
    assert(mid_columns(fin) =~= fin);
    assert(plan_spec(fin, false, has_item_groups) =~= steps_every_open());
}

} // verus!
