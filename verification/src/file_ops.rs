//! File facts shown to the user: whether listed files exist, how much room the data
//! takes, the details of one file, and the text pasted for a file item.
use vstd::prelude::*;
use crate::database::ClipboardItem;
use crate::file_clipboard::{json_string_array, json_string_list};
use crate::merge_paste::{join_strings, join_with};
use crate::text::{chars_eq, chars_of, unicode_to_uppercase};

verus! {

/// Whether a path exists, and whether it is a directory.
#[derive(Debug, Clone, Copy, PartialEq, Eq, Structural)]
pub struct FileCheckResult {
    pub exists: bool,
    pub is_dir: bool,
}

impl FileCheckResult {
    /// The check of a path from the disk's answers; a path that does not exist is no
    /// directory.
    pub fn from_answers(exists: bool, is_dir: bool) -> (r: Self)
        ensures
            r.exists == exists,
            r.is_dir == (exists && is_dir),
    {
        FileCheckResult { exists, is_dir: exists && is_dir }
    }
}

/// How much room the data takes.
#[derive(Debug, Clone, Copy, PartialEq, Eq, Structural)]
pub struct DataSizeInfo {
    pub db_size: u64,
    pub images_size: u64,
    pub images_count: u64,
    pub total_size: u64,
}

pub open spec fn sum(s: Seq<u64>) -> nat
    decreases s.len(),
{
    if s.len() == 0 {
        0
    } else {
        sum(s.drop_last()) + (s.last() as nat)
    }
}

fn sum_u64(s: &[u64]) -> (r: u64)
    requires
        sum(s@) <= u64::MAX,
    ensures
        r == sum(s@),
{
    let mut total: u64 = 0;
    let mut i: usize = 0;
    while i < s.len()
        invariant
            i <= s@.len(),
            total == sum(s@.take(i as int)),
            sum(s@) <= u64::MAX,
        decreases s.len() - i,
    {
        assert(s@.take(i + 1).drop_last() =~= s@.take(i as int));
        proof {
            lemma_sum_prefix(s@, i + 1);
        }
        total = total + s[i];
        i += 1;
    }
    assert(s@.take(i as int) =~= s@);
    total
}

proof fn lemma_sum_prefix(s: Seq<u64>, k: int)
    requires
        0 <= k <= s.len(),
    ensures
        sum(s.take(k)) <= sum(s),
    decreases s.len() - k,
{
    if k < s.len() {
        lemma_sum_prefix(s, k + 1);
        assert(s.take(k + 1).drop_last() =~= s.take(k));
    } else {
        assert(s.take(k) =~= s);
    }
}

impl DataSizeInfo {
    /// The sizes of the database files (absent ones count zero) and of the image files.
    pub fn from_sizes(db_files: &[u64], image_files: &[u64]) -> (r: Self)
        requires
            sum(db_files@) + sum(image_files@) <= u64::MAX,
        ensures
            r.db_size == sum(db_files@),
            r.images_size == sum(image_files@),
            r.images_count == image_files@.len(),
            r.total_size == sum(db_files@) + sum(image_files@),
    {
        let db = sum_u64(db_files);
        let images = sum_u64(image_files);
        DataSizeInfo {
            db_size: db,
            images_size: images,
            images_count: image_files.len() as u64,
            total_size: db + images,
        }
    }
}

/// The details of one file.
#[derive(Debug, Clone, PartialEq, Eq)]
pub struct FileDetails {
    name: String,
    path: String,
    size: i64,
    file_type: String,
    is_dir: bool,
    modified_at: Option<i64>,
    created_at: Option<i64>,
}

/// The type shown for a file: `folder`, the extension in upper case, `FILE` for a
/// file without one, `unknown` for anything else.
pub open spec fn file_type_spec(is_dir: bool, is_file: bool, extension: Option<Seq<char>>) -> Seq<
    char,
> {
    if is_dir {
        "folder"@
    } else if is_file {
        match extension {
            Some(e) => unicode_to_uppercase(e),
            None => "FILE"@,
        }
    } else {
        "unknown"@
    }
}

/// The type shown for a file (see `file_type_spec`).
pub fn file_type_name(is_dir: bool, is_file: bool, extension: Option<&str>) -> (t: String)
    ensures
        t@ == file_type_spec(
            is_dir,
            is_file,
            match extension {
                Some(e) => Some(e@),
                None => None,
            },
        ),
{
    if is_dir {
        "folder".to_owned()
    } else if is_file {
        match extension {
            Some(e) => e.to_uppercase(),
            None => "FILE".to_owned(),
        }
    } else {
        "unknown".to_owned()
    }
}

impl FileDetails {
    /// The details of a file from what its metadata says.
    pub fn new(
        name: String,
        path: String,
        size: i64,
        file_type: String,
        is_dir: bool,
        modified_at: Option<i64>,
        created_at: Option<i64>,
    ) -> (d: Self)
        ensures
            d.name() == name@,
            d.path() == path@,
            d.size() == size,
            d.file_type() == file_type@,
            d.is_dir() == is_dir,
            d.modified_at() == modified_at,
            d.created_at() == created_at,
    {
        FileDetails { name, path, size, file_type, is_dir, modified_at, created_at }
    }

    pub closed spec fn name(&self) -> Seq<char> {
        self.name@
    }

    pub closed spec fn path(&self) -> Seq<char> {
        self.path@
    }

    pub closed spec fn size(&self) -> i64 {
        self.size
    }

    pub closed spec fn file_type(&self) -> Seq<char> {
        self.file_type@
    }

    pub closed spec fn is_dir(&self) -> bool {
        self.is_dir
    }

    pub closed spec fn modified_at(&self) -> Option<i64> {
        self.modified_at
    }

    pub closed spec fn created_at(&self) -> Option<i64> {
        self.created_at
    }
}

/// What pasting a file item as a path writes: its paths, one per line.
pub open spec fn paths_text_spec(item: ClipboardItem) -> Result<Seq<char>, Seq<char>> {
    if item.content_type@ != "files"@ {
        Err("Item is not a file type"@)
    } else {
        match item.file_paths {
            None => Err("No file paths found"@),
            Some(j) => match json_string_array(j@) {
                Ok(paths) => Ok(join_with(paths, seq!['\n'])),
                Err(m) => Err("Failed to parse file paths: "@ + m),
            },
        }
    }
}

/// The text pasted for a file item as a path (see `paths_text_spec`).
pub fn paths_text(item: &ClipboardItem) -> (r: Result<String, String>)
    ensures
        match r {
            Ok(t) => paths_text_spec(*item) == Ok::<Seq<char>, Seq<char>>(t@),
            Err(e) => paths_text_spec(*item) == Err::<Seq<char>, Seq<char>>(e@),
        },
{
    let ct = chars_of(item.content_type.as_str());
    let files = chars_of("files");
    if !chars_eq(ct.as_slice(), files.as_slice()) {
        return Err("Item is not a file type".to_owned());
    }
    match &item.file_paths {
        None => Err("No file paths found".to_owned()),
        Some(j) => match json_string_list(j.as_str()) {
            Ok(paths) => {
                let t = join_strings(paths.as_slice(), "\n");
                proof {
                    reveal_strlit("\n");
                }
                assert("\n"@ =~= seq!['\n']);
                Ok(t)
            },
            Err(m) => {
                let mut out = chars_of("Failed to parse file paths: ");
                let mc = chars_of(m.as_str());
                crate::text::append_chars(&mut out, mc.as_slice());
                Err(crate::text::string_of(out.as_slice()))
            },
        },
    }
}

} // verus!
