//! Keyed lookup of the latest record per item code.
//!
//! The table is backed by a vector whose entries carry pairwise distinct
//! codes; its view is the finite map from each stored code to its record.

use vstd::prelude::*;

use crate::item::{InventoryItem, ItemModel};

verus! {

/// True when some entry of `s` carries the code `c`.
pub open spec fn has_code(s: Seq<ItemModel>, c: Seq<char>) -> bool {
    exists|i: int| 0 <= i < s.len() && s[i].code == c
}

/// An index of an entry of `s` carrying the code `c` (meaningful only when
/// `has_code(s, c)` holds; unique when the codes of `s` are distinct).
pub open spec fn index_of_code(s: Seq<ItemModel>, c: Seq<char>) -> int {
    choose|i: int| 0 <= i < s.len() && s[i].code == c
}

/// True when no two entries of `s` carry the same code.
pub open spec fn codes_distinct(s: Seq<ItemModel>) -> bool {
    forall|i: int, j: int|
        0 <= i < s.len() && 0 <= j < s.len() && i != j ==> s[i].code != s[j].code
}

/// The map from each code occurring in `s` to the entry carrying it.
pub open spec fn map_of(s: Seq<ItemModel>) -> Map<Seq<char>, ItemModel> {
    Map::new(|c: Seq<char>| has_code(s, c), |c: Seq<char>| s[index_of_code(s, c)])
}

/// When some entry of `s` carries the code `c` and the codes of `s` are
/// distinct, `index_of_code` names the one entry that does.
pub proof fn lemma_index_of_code(s: Seq<ItemModel>, c: Seq<char>)
    requires
        has_code(s, c),
    ensures
        0 <= index_of_code(s, c) < s.len(),
        s[index_of_code(s, c)].code == c,
        codes_distinct(s) ==> forall|j: int|
            0 <= j < s.len() && s[j].code == c ==> j == index_of_code(s, c),
{
    let i = index_of_code(s, c);
    assert(0 <= i < s.len() && s[i].code == c);
}

/// Each entry of a sequence with distinct codes is the map's record for its
/// code.
pub proof fn lemma_map_of_entry(s: Seq<ItemModel>, i: int)
    requires
        codes_distinct(s),
        0 <= i < s.len(),
    ensures
        map_of(s).contains_pair(s[i].code, s[i]),
{
    assert(has_code(s, s[i].code));
    lemma_index_of_code(s, s[i].code);
}

/// Appending an entry whose code is new inserts it into the map.
pub proof fn lemma_push_new_code(s: Seq<ItemModel>, m: ItemModel)
    requires
        codes_distinct(s),
        !has_code(s, m.code),
    ensures
        codes_distinct(s.push(m)),
        map_of(s.push(m)) == map_of(s).insert(m.code, m),
{
    let t = s.push(m);
    assert forall|i: int, j: int|
        0 <= i < t.len() && 0 <= j < t.len() && i != j implies t[i].code != t[j].code by {
        if i < s.len() && j < s.len() {
        } else if j == s.len() {
            if t[i].code == m.code {
                assert(s[i].code == m.code);
                assert(has_code(s, m.code));
            }
        } else {
            if t[j].code == m.code {
                assert(s[j].code == m.code);
                assert(has_code(s, m.code));
            }
        }
    }
    assert forall|c: Seq<char>| #[trigger] has_code(t, c) implies has_code(s, c) || c == m.code by {
        let i = choose|i: int| 0 <= i < t.len() && t[i].code == c;
        if i < s.len() {
            assert(s[i].code == c);
        }
    }
    assert forall|c: Seq<char>| has_code(s, c) || c == m.code implies #[trigger] has_code(t, c) by {
        if c == m.code {
            assert(t[s.len() as int].code == c);
        } else {
            let i = index_of_code(s, c);
            lemma_index_of_code(s, c);
            assert(t[i].code == c);
        }
    }
    assert forall|c: Seq<char>| #[trigger] has_code(t, c) implies map_of(t)[c] == map_of(
        s,
    ).insert(m.code, m)[c] by {
        lemma_index_of_code(t, c);
        let i = index_of_code(t, c);
        if c == m.code {
            if i < s.len() {
                assert(s[i].code == c);
                assert(has_code(s, m.code));
            }
            assert(t[i] == m);
        } else {
            assert(i < s.len() && s[i].code == c);
            assert(has_code(s, c));
            lemma_index_of_code(s, c);
            assert(s[index_of_code(s, c)].code == c);
            assert(i == index_of_code(s, c));
            assert(t[i] == s[i]);
        }
    }
    assert(map_of(t) =~= map_of(s).insert(m.code, m));
}

/// Removing the one entry carrying a code removes that code from the map.
pub proof fn lemma_remove_code(s: Seq<ItemModel>, i: int)
    requires
        codes_distinct(s),
        0 <= i < s.len(),
    ensures
        codes_distinct(s.remove(i)),
        !has_code(s.remove(i), s[i].code),
        map_of(s.remove(i)) == map_of(s).remove(s[i].code),
{
    let t = s.remove(i);
    assert forall|j: int| 0 <= j < t.len() implies #[trigger] t[j] == (if j < i {
        s[j]
    } else {
        s[j + 1]
    }) by {}
    assert forall|j: int, k: int|
        0 <= j < t.len() && 0 <= k < t.len() && j != k implies t[j].code != t[k].code by {
        let j0: int = if j < i { j } else { j + 1 };
        let k0: int = if k < i { k } else { k + 1 };
        assert(t[j] == s[j0] && t[k] == s[k0] && j0 != k0);
    }
    if has_code(t, s[i].code) {
        let j = choose|j: int| 0 <= j < t.len() && t[j].code == s[i].code;
        let j0: int = if j < i { j } else { j + 1 };
        assert(s[j0].code == s[i].code && j0 != i);
    }
    assert forall|c: Seq<char>| #[trigger] has_code(t, c) implies has_code(s, c) && c != s[i].code by {
        let j = choose|j: int| 0 <= j < t.len() && t[j].code == c;
        let j0: int = if j < i { j } else { j + 1 };
        assert(s[j0].code == c);
        assert(has_code(s, c));
    }
    assert forall|c: Seq<char>| has_code(s, c) && c != s[i].code implies #[trigger] has_code(t, c) by {
        let j = index_of_code(s, c);
        lemma_index_of_code(s, c);
        if j < i {
            assert(t[j].code == c);
        } else {
            assert(j != i);
            assert(t[j - 1].code == c);
        }
    }
    assert forall|c: Seq<char>| #[trigger] has_code(t, c) implies map_of(t)[c] == map_of(s).remove(
        s[i].code,
    )[c] by {
        lemma_index_of_code(t, c);
        let j = index_of_code(t, c);
        let j0: int = if j < i { j } else { j + 1 };
        assert(t[j] == s[j0] && s[j0].code == c);
        assert(has_code(s, c));
        lemma_index_of_code(s, c);
        assert(j0 == index_of_code(s, c));
    }
    assert(map_of(t) =~= map_of(s).remove(s[i].code));
}

/// The map of a sequence with distinct codes has a finite key set with one
/// key per entry.
pub proof fn lemma_map_of_size(s: Seq<ItemModel>)
    requires
        codes_distinct(s),
    ensures
        map_of(s).dom().finite(),
        map_of(s).dom().len() == s.len(),
{
    broadcast use vstd::seq_lib::seq_to_set_is_finite;

    let cs = s.map_values(|m: ItemModel| m.code);
    assert forall|c: Seq<char>| #[trigger] has_code(s, c) implies cs.contains(c) by {
        let i = index_of_code(s, c);
        lemma_index_of_code(s, c);
        assert(cs[i] == c);
    }
    assert forall|c: Seq<char>| #[trigger] cs.contains(c) implies has_code(s, c) by {
        let i = choose|i: int| 0 <= i < cs.len() && cs[i] == c;
        assert(s[i].code == c);
    }
    assert(map_of(s).dom() =~= cs.to_set());
    assert(cs.no_duplicates()) by {
        assert forall|i: int, j: int|
            0 <= i < cs.len() && 0 <= j < cs.len() && i != j implies cs[i] != cs[j] by {
            assert(cs[i] == s[i].code && cs[j] == s[j].code);
        }
    }
    cs.unique_seq_to_set();
}

/// Keyed lookup of the latest record per item code: unique keys, and a later
/// insertion with an already present code overwrites the stored record.
pub struct InventoryTable {
    entries: Vec<InventoryItem>,
}

impl View for InventoryTable {
    type V = Map<Seq<char>, ItemModel>;

    closed spec fn view(&self) -> Map<Seq<char>, ItemModel> {
        map_of(self.records())
    }
}

impl InventoryTable {
    /// The stored entries, as models, in storage order.
    pub closed spec fn records(&self) -> Seq<ItemModel> {
        self.entries@.map_values(|it: InventoryItem| it@)
    }

    /// Well-formedness: no two stored entries carry the same code.
    pub open spec fn wf(&self) -> bool {
        codes_distinct(self.records())
    }

    /// Creates an empty table.
    pub fn new() -> (r: InventoryTable)
        ensures
            r.wf(),
            r@ == Map::<Seq<char>, ItemModel>::empty(),
            r.records() == Seq::<ItemModel>::empty(),
    {
        let r = InventoryTable { entries: Vec::new() };
        proof {
            assert(r.records() =~= Seq::<ItemModel>::empty());
            assert(r@ =~= Map::<Seq<char>, ItemModel>::empty());
        }
        r
    }

    /// The index of the entry carrying `code`, if one is stored.
    fn find_index(&self, code: &String) -> (r: Option<usize>)
        requires
            self.wf(),
        ensures
            match r {
                Some(i) => i < self.records().len() && self.records()[i as int].code == code@,
                None => !has_code(self.records(), code@),
            },
    {
        let n = self.entries.len();
        let mut i: usize = 0;
        while i < n
            invariant
                n == self.records().len(),
                i <= n,
                forall|j: int| 0 <= j < i ==> self.records()[j].code != code@,
            decreases n - i,
        {
            if self.entries[i].code == *code {
                return Some(i);
            }
            i += 1;
        }
        proof {
            if has_code(self.records(), code@) {
                lemma_index_of_code(self.records(), code@);
            }
        }
        None
    }

    /// Stores `item` under its code: creates the entry if the code is new,
    /// overwrites the stored record otherwise.
    pub fn insert(&mut self, item: InventoryItem)
        requires
            old(self).wf(),
        ensures
            final(self).wf(),
            final(self)@ == old(self)@.insert(item@.code, item@),
    {
        let ghost s = self.records();
        let ghost m = item@;
        match self.find_index(&item.code) {
            Some(i) => {
                self.entries.remove(i);
                proof {
                    assert(self.records() =~= s.remove(i as int));
                    lemma_remove_code(s, i as int);
                    assert(s[i as int].code == m.code);
                }
            },
            None => {},
        }
        let ghost t = self.records();
        self.entries.push(item);
        proof {
            assert(self.records() =~= t.push(m));
            lemma_push_new_code(t, m);
            assert(map_of(t.push(m)) == map_of(t).insert(m.code, m));
            assert(self@ =~= map_of(s).insert(m.code, m));
        }
    }

    /// Returns a copy of every stored record. The order is unspecified; the
    /// result carries exactly one record per code in the table, namely the
    /// one the table maps that code to.
    pub fn list(&self) -> (r: Vec<InventoryItem>)
        requires
            self.wf(),
        ensures
            forall|i: int|
                0 <= i < r@.len() ==> #[trigger] self@.contains_pair(r@[i]@.code, r@[i]@),
            forall|c: Seq<char>|
                self@.dom().contains(c) ==> exists|i: int| 0 <= i < r@.len() && r@[i]@.code == c,
            forall|i: int, j: int|
                0 <= i < r@.len() && 0 <= j < r@.len() && i != j ==> r@[i]@.code != r@[j]@.code,
            self@.dom().finite(),
            r@.len() == self@.dom().len(),
    {
        proof {
            lemma_map_of_size(self.records());
        }
        let n = self.entries.len();
        let mut r: Vec<InventoryItem> = Vec::new();
        let mut i: usize = 0;
        while i < n
            invariant
                n == self.records().len(),
                n == self.entries@.len(),
                i <= n,
                r@.len() == i,
                forall|j: int| 0 <= j < i ==> r@[j]@ == self.records()[j],
            decreases n - i,
        {
            let it = self.entries[i].clone();
            r.push(it);
            i += 1;
        }
        proof {
            assert forall|i: int|
                0 <= i < r@.len() implies #[trigger] self@.contains_pair(r@[i]@.code, r@[i]@) by {
                lemma_map_of_entry(self.records(), i);
            }
            assert forall|c: Seq<char>| self@.dom().contains(c) implies exists|i: int|
                0 <= i < r@.len() && r@[i]@.code == c by {
                lemma_index_of_code(self.records(), c);
                let i = index_of_code(self.records(), c);
                assert(0 <= i < r@.len() && r@[i]@.code == c);
            }
            assert forall|i: int, j: int|
                0 <= i < r@.len() && 0 <= j < r@.len() && i != j implies r@[i]@.code
                != r@[j]@.code by {
                assert(r@[i]@ == self.records()[i]);
                assert(r@[j]@ == self.records()[j]);
            }
        }
        r
    }
}

} // verus!
