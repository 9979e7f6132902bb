//! Importing items received from another device: an item is added unless an item with
//! its content hash is stored already, or was added earlier in the same import.
use vstd::prelude::*;
use crate::text::string_views;

verus! {

/// The positions of the items that an import adds, among its first `n` items, given
/// their content hashes `h` and whether each hash was stored before the import began.
pub open spec fn chosen(h: Seq<Seq<char>>, stored: Seq<bool>, n: nat) -> Seq<int>
    decreases n,
{
    if n == 0 {
        seq![]
    } else {
        let prev = chosen(h, stored, (n - 1) as nat);
        let i = n - 1;
        if !stored[i] && !taken(h, prev, h[i]) {
            prev.push(i)
        } else {
            prev
        }
    }
}

/// Whether one of the items at positions `picked` has content hash `x`.
pub open spec fn taken(h: Seq<Seq<char>>, picked: Seq<int>, x: Seq<char>) -> bool {
    exists|k: int| 0 <= k < picked.len() && h[#[trigger] picked[k]] == x
}

fn is_taken(hashes: &[String], picked: &Vec<usize>, i: usize) -> (r: bool)
    requires
        i < hashes@.len(),
        forall|k: int| 0 <= k < picked@.len() ==> #[trigger] picked@[k] < hashes@.len(),
    ensures
        r == taken(string_views(hashes@), picked@.map_values(|p: usize| p as int), hashes@[i as int]@),
{
    let ghost h = string_views(hashes@);
    let ghost ps = picked@.map_values(|p: usize| p as int);
    let mut k: usize = 0;
    while k < picked.len()
        invariant
            k <= picked@.len(),
            i < hashes@.len(),
            h == string_views(hashes@),
            ps == picked@.map_values(|p: usize| p as int),
            forall|j: int| 0 <= j < picked@.len() ==> #[trigger] picked@[j] < hashes@.len(),
            forall|j: int| 0 <= j < k ==> h[#[trigger] ps[j]] != hashes@[i as int]@,
        decreases picked.len() - k,
    {
        let p = picked[k];
        if hashes[p] == hashes[i] {
            assert(h[ps[k as int]] == hashes@[i as int]@);
            return true;
        }
        k += 1;
    }
    false
}

/// The positions, in order, of the items an import adds: each item whose content hash
/// was not stored before the import and does not belong to an item added before it.
/// `stored[i]` says whether the hash of item `i` was stored when the import began.
pub fn sync_import_selection(hashes: &[String], stored: &[bool]) -> (picked: Vec<usize>)
    requires
        hashes@.len() == stored@.len(),
    ensures
        picked@.map_values(|p: usize| p as int) == chosen(
            string_views(hashes@),
            stored@,
            hashes@.len(),
        ),
{
    let ghost h = string_views(hashes@);
    let mut picked: Vec<usize> = Vec::new();
    let mut i: usize = 0;
    while i < hashes.len()
        invariant
            i <= hashes@.len(),
            hashes@.len() == stored@.len(),
            h == string_views(hashes@),
            picked@.map_values(|p: usize| p as int) == chosen(h, stored@, i as nat),
            forall|k: int| 0 <= k < picked@.len() ==> #[trigger] picked@[k] < i,
        decreases hashes.len() - i,
    {
        let t = is_taken(hashes, &picked, i);
        if !stored[i] && !t {
            let ghost before = picked@;
            picked.push(i);
            assert(picked@.map_values(|p: usize| p as int) =~= before.map_values(
                |p: usize| p as int,
            ).push(i as int));
        }
        i += 1;
    }
    picked
}

/// The added positions lie among the first `n`, in increasing order.
pub proof fn lemma_chosen_increasing(h: Seq<Seq<char>>, stored: Seq<bool>, n: nat)
    ensures
        forall|a: int| 0 <= a < chosen(h, stored, n).len() ==> 0 <= #[trigger] chosen(
            h,
            stored,
            n,
        )[a] < n,
        forall|a: int, b: int|
            0 <= a < b < chosen(h, stored, n).len() ==> chosen(h, stored, n)[a] < chosen(
                h,
                stored,
                n,
            )[b],
    decreases n,
{
    if n > 0 {
        lemma_chosen_increasing(h, stored, (n - 1) as nat);
        let prev = chosen(h, stored, (n - 1) as nat);
        let c = chosen(h, stored, n);
        if c != prev {
            assert(c == prev.push(n - 1));
            assert forall|a: int| 0 <= a < c.len() implies 0 <= #[trigger] c[a] < n by {
                if a < prev.len() {
                    assert(c[a] == prev[a]);
                }
            }
            assert forall|a: int, b: int| 0 <= a < b < c.len() implies c[a] < c[b] by {
                assert(c[a] == prev[a]);
                if b < prev.len() {
                    assert(c[b] == prev[b]);
                }
            }
        }
    }
}

/// An import adds no two items with the same content hash, and no item whose hash was
/// stored before it began.
pub proof fn lemma_import_adds_no_duplicates(h: Seq<Seq<char>>, stored: Seq<bool>, n: nat)
    requires
        n <= h.len(),
        n <= stored.len(),
    ensures
        forall|a: int, b: int|
            0 <= a < b < chosen(h, stored, n).len() ==> h[chosen(h, stored, n)[a]] != h[chosen(
                h,
                stored,
                n,
            )[b]],
        forall|a: int| 0 <= a < chosen(h, stored, n).len() ==> !stored[#[trigger] chosen(
            h,
            stored,
            n,
        )[a]],
    decreases n,
{
    if n > 0 {
        let prev = chosen(h, stored, (n - 1) as nat);
        lemma_import_adds_no_duplicates(h, stored, (n - 1) as nat);
        let c = chosen(h, stored, n);
        let i = n - 1;
        if !stored[i] && !taken(h, prev, h[i]) {
            assert forall|a: int, b: int| 0 <= a < b < c.len() implies h[c[a]] != h[c[b]] by {
                if b == c.len() - 1 {
                    assert(c[a] == prev[a]);
                    if h[prev[a]] == h[i] {
                        assert(taken(h, prev, h[i]));
                    }
                } else {
                    assert(c[a] == prev[a] && c[b] == prev[b]);
                }
            }
        }
    }
}

/// Every item an import leaves out was stored before it began, or has the hash of an
/// item it added before this one.
pub proof fn lemma_skipped_items_are_present(h: Seq<Seq<char>>, stored: Seq<bool>, n: nat, i: int)
    requires
        n <= h.len(),
        n <= stored.len(),
        0 <= i < n,
        !chosen(h, stored, n).contains(i),
    ensures
        stored[i] || exists|a: int|
            0 <= a < chosen(h, stored, n).len() && #[trigger] chosen(h, stored, n)[a] < i && h[chosen(
                h,
                stored,
                n,
            )[a]] == h[i],
    decreases n,
{
    let prev = chosen(h, stored, (n - 1) as nat);
    let c = chosen(h, stored, n);
    lemma_chosen_increasing(h, stored, (n - 1) as nat);
    if i < n - 1 {
        if c != prev {
            assert(c == prev.push(n - 1));
            if prev.contains(i) {
                let k = choose|k: int| 0 <= k < prev.len() && prev[k] == i;
                assert(c[k] == i);
            }
        }
        lemma_skipped_items_are_present(h, stored, (n - 1) as nat, i);
        if !stored[i] {
            let a = choose|a: int| 0 <= a < prev.len() && #[trigger] prev[a] < i && h[prev[a]] == h[i];
            if c != prev {
                assert(c[a] == prev[a]);
            }
        }
    } else {
        if c != prev {
            assert(c[c.len() - 1] == i);
        }
        if !stored[i] {
            assert(taken(h, prev, h[i]));
            let k = choose|k: int| 0 <= k < prev.len() && h[#[trigger] prev[k]] == h[i];
            assert(prev[k] < n - 1);
        }
    }
}

} // verus!
