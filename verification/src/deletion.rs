//! Deleting clipboard items on request: a delete refuses a locked item, and a batch
//! delete that holds a locked item removes nothing. (Keeping the history under its
//! limits removes old items whether locked or not.)
use vstd::prelude::*;
use crate::text::{chars_of, string_of};

verus! {

/// What a stored item carries that matters when it is deleted.
pub struct StoredItem {
    pub id: i64,
    pub is_locked: bool,
    pub image_path: Option<String>,
    pub file_payload: Option<String>,
}

/// The item with its lock turned over.
pub open spec fn toggled(item: StoredItem) -> StoredItem {
    StoredItem {
        id: item.id,
        is_locked: !item.is_locked,
        image_path: item.image_path,
        file_payload: item.file_payload,
    }
}

impl StoredItem {
    /// Turns the lock over and returns whether the item is now locked.
    pub fn toggle_lock(&mut self) -> (locked: bool)
        ensures
            *final(self) == toggled(*old(self)),
            locked == final(self).is_locked,
    {
        self.is_locked = !self.is_locked;
        self.is_locked
    }
}

/// Whether deleting the item found under an id goes ahead.
pub open spec fn delete_allowed(found: Option<StoredItem>) -> bool {
    found matches Some(item) && !item.is_locked
}

/// Why a delete was refused.
pub enum ClipboardDeleteError {
    Locked,
    NotFound,
    Database(String),
}

/// The message the user interface receives for a refused delete.
pub open spec fn delete_error_text(e: ClipboardDeleteError) -> Seq<char> {
    match e {
        ClipboardDeleteError::Locked => "CLIPBOARD:ITEM_LOCKED"@,
        ClipboardDeleteError::NotFound => "CLIPBOARD:ITEM_NOT_FOUND"@,
        ClipboardDeleteError::Database(message) => message@,
    }
}

/// The message the user interface receives for a refused delete.
pub fn map_delete_error(error: ClipboardDeleteError) -> (s: String)
    ensures
        s@ == delete_error_text(error),
{
    proof {
        reveal_strlit("CLIPBOARD:ITEM_LOCKED");
        reveal_strlit("CLIPBOARD:ITEM_NOT_FOUND");
    }
    match error {
        ClipboardDeleteError::Locked => string_of(chars_of("CLIPBOARD:ITEM_LOCKED").as_slice()),
        ClipboardDeleteError::NotFound => string_of(
            chars_of("CLIPBOARD:ITEM_NOT_FOUND").as_slice(),
        ),
        ClipboardDeleteError::Database(message) => message,
    }
}

/// The answer to deleting one item, given the item stored under the id, if any: it is
/// removed only when it exists and is not locked.
pub fn approve_delete(found: Option<StoredItem>) -> (r: Result<StoredItem, ClipboardDeleteError>)
    ensures
        r is Ok <==> delete_allowed(found),
        match found {
            None => r matches Err(ClipboardDeleteError::NotFound),
            Some(item) => if item.is_locked {
                r matches Err(ClipboardDeleteError::Locked)
            } else {
                r == Ok::<StoredItem, ClipboardDeleteError>(item)
            },
        },
{
    match found {
        None => Err(ClipboardDeleteError::NotFound),
        Some(item) => if item.is_locked {
            Err(ClipboardDeleteError::Locked)
        } else {
            Ok(item)
        },
    }
}

/// A locked item is refused until its lock is turned over, and then it can be
/// deleted; turning the lock over twice restores the item.
pub proof fn lemma_locked_delete_until_unlocked(item: StoredItem)
    requires
        item.is_locked,
    ensures
        !delete_allowed(Some(item)),
        delete_allowed(Some(toggled(item))),
        toggled(toggled(item)) == item,
{
}

/// What a batch delete removes and hands back: the ids, how many rows, and the image
/// paths and file payloads whose files are to be cleaned up.
pub struct BatchDeletion {
    pub ids: Vec<i64>,
    pub deleted: usize,
    pub image_paths: Vec<String>,
    pub file_payloads: Vec<String>,
}

/// Whether any of the items is locked.
pub open spec fn any_locked(items: Seq<StoredItem>) -> bool {
    exists|i: int| 0 <= i < items.len() && #[trigger] items[i].is_locked
}

/// The strings present among `opts`, in order.
pub open spec fn present(opts: Seq<Option<String>>) -> Seq<String>
    decreases opts.len(),
{
    if opts.len() == 0 {
        seq![]
    } else {
        present(opts.drop_last()) + match opts.last() {
            Some(s) => seq![s],
            None => seq![],
        }
    }
}

pub open spec fn item_ids(items: Seq<StoredItem>) -> Seq<i64> {
    items.map_values(|x: StoredItem| x.id)
}

pub open spec fn image_paths_of(items: Seq<StoredItem>) -> Seq<String> {
    present(items.map_values(|x: StoredItem| x.image_path))
}

pub open spec fn file_payloads_of(items: Seq<StoredItem>) -> Seq<String> {
    present(items.map_values(|x: StoredItem| x.file_payload))
}

fn push_present(out: &mut Vec<String>, opt: &Option<String>)
    ensures
        final(out)@ == old(out)@ + match *opt {
            Some(s) => seq![s],
            None => seq![],
        },
{
    match opt {
        Some(s) => out.push(s.clone()),
        None => {},
    }
}

/// The plan for deleting the stored items that a batch names: refused with `Locked`,
/// removing nothing, when any of them is locked; else all of them go, and their image
/// paths and file payloads come back in order.
pub fn plan_batch_delete(found: &[StoredItem]) -> (r: Result<BatchDeletion, ClipboardDeleteError>)
    ensures
        any_locked(found@) <==> r matches Err(ClipboardDeleteError::Locked),
        !any_locked(found@) ==> (r matches Ok(plan) && plan.ids@ == item_ids(found@)
            && plan.deleted == found@.len() && plan.image_paths@ == image_paths_of(found@)
            && plan.file_payloads@ == file_payloads_of(found@)),
{
    let mut k: usize = 0;
    while k < found.len()
        invariant
            k <= found@.len(),
            forall|j: int| 0 <= j < k ==> !(#[trigger] found@[j].is_locked),
        decreases found.len() - k,
    {
        if found[k].is_locked {
            return Err(ClipboardDeleteError::Locked);
        }
        k += 1;
    }
    let mut ids: Vec<i64> = Vec::new();
    let mut image_paths: Vec<String> = Vec::new();
    let mut file_payloads: Vec<String> = Vec::new();
    let ghost all = found@;
    let mut i: usize = 0;
    while i < found.len()
        invariant
            i <= found@.len(),
            all == found@,
            ids@ == item_ids(all.take(i as int)),
            image_paths@ == image_paths_of(all.take(i as int)),
            file_payloads@ == file_payloads_of(all.take(i as int)),
        decreases found.len() - i,
    {
        let item = &found[i];
        ids.push(item.id);
        push_present(&mut image_paths, &item.image_path);
        push_present(&mut file_payloads, &item.file_payload);
        proof {
            let t = all.take(i + 1);
            assert(t.drop_last() =~= all.take(i as int));
            assert(t.map_values(|x: StoredItem| x.image_path).drop_last() =~= all.take(
                i as int,
            ).map_values(|x: StoredItem| x.image_path));
            assert(t.map_values(|x: StoredItem| x.file_payload).drop_last() =~= all.take(
                i as int,
            ).map_values(|x: StoredItem| x.file_payload));
            assert(item_ids(t) =~= item_ids(all.take(i as int)).push(item.id));
        }
        i += 1;
    }
    assert(all.take(found@.len() as int) =~= all);
    Ok(BatchDeletion { ids, deleted: found.len(), image_paths, file_payloads })
}

} // verus!
