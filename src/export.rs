//! Column discovery and the rows of the tabular export.

use crate::metadata::{Attribute, Metadata};
use crate::text::{decimal, decimal_string};
use vstd::prelude::*;
use vstd::string::*;

verus! {

/// The text of each string.
pub open spec fn texts(v: Seq<String>) -> Seq<Seq<char>> {
    v.map_values(|s: String| s@)
}

pub open spec fn no_duplicates(s: Seq<Seq<char>>) -> bool {
    forall|i: int, j: int| 0 <= i < j < s.len() ==> s[i] != s[j]
}

pub open spec fn token_id_column() -> Seq<char> {
    "tokenId"@
}

pub open spec fn name_column() -> Seq<char> {
    "name"@
}

/// The trait types of a list of attributes, in order.
pub open spec fn trait_types(attrs: Seq<Attribute>) -> Seq<Seq<char>> {
    attrs.map_values(|a: Attribute| a.trait_type@)
}

/// The columns after folding the trait types `ts`, in order, into `h`: each
/// one not present yet is appended.
pub open spec fn fold_traits(h: Seq<Seq<char>>, ts: Seq<Seq<char>>) -> Seq<Seq<char>>
    decreases ts.len(),
{
    if ts.len() == 0 {
        h
    } else {
        let g = fold_traits(h, ts.drop_last());
        if g.contains(ts.last()) {
            g
        } else {
            g.push(ts.last())
        }
    }
}

/// The ordered, duplicate-free column names of the tabular export.
pub struct HeaderSet {
    names: Vec<String>,
}

impl View for HeaderSet {
    type V = Seq<Seq<char>>;

    closed spec fn view(&self) -> Seq<Seq<char>> {
        texts(self.names@)
    }
}

impl HeaderSet {
    /// Starts with `tokenId`, then `name`, and holds no name twice.
    pub open spec fn wf(&self) -> bool {
        &&& self@.len() >= 2
        &&& self@[0] == token_id_column()
        &&& self@[1] == name_column()
        &&& no_duplicates(self@)
    }

    /// The columns every export starts with.
    pub open spec fn new_spec() -> Seq<Seq<char>> {
        seq![token_id_column(), name_column()]
    }

    /// The two fixed columns.
    pub fn new() -> (r: HeaderSet)
        ensures
            r.wf(),
            r@ == Self::new_spec(),
    {
        proof {
            reveal_strlit("tokenId");
            reveal_strlit("name");
        }
        let mut names: Vec<String> = Vec::new();
        names.push(String::from_str("tokenId"));
        names.push(String::from_str("name"));
        let r = HeaderSet { names };
        assert(r@ =~= seq![token_id_column(), name_column()]);
        assert(token_id_column().len() == 7 && name_column().len() == 4);
        r
    }

    pub fn len(&self) -> (r: usize)
        ensures
            r == self@.len(),
    {
        self.names.len()
    }

    /// The column names, in order.
    pub fn names(&self) -> (r: &Vec<String>)
        ensures
            texts(r@) == self@,
    {
        &self.names
    }

    /// Whether `t` is one of the columns.
    pub fn contains(&self, t: &String) -> (r: bool)
        ensures
            r == self@.contains(t@),
    {
        let mut i: usize = 0;
        while i < self.names.len()
            invariant
                i <= self@.len(),
                self@.len() == self.names@.len(),
                forall|j: int| 0 <= j < i ==> self@[j] != t@,
            decreases self.names@.len() - i,
        {
            if self.names[i] == *t {
                assert(self@[i as int] == t@);
                return true;
            }
            i = i + 1;
        }
        false
    }

    /// Appends `t` unless it is already a column.
    pub fn add(&mut self, t: &String)
        requires
            old(self).wf(),
        ensures
            final(self).wf(),
            final(self)@ == (if old(self)@.contains(t@) {
                old(self)@
            } else {
                old(self)@.push(t@)
            }),
    {
        if !self.contains(t) {
            self.names.push(t.clone());
            assert(self@ =~= old(self)@.push(t@));
            assert forall|i: int, j: int| 0 <= i < j < self@.len() implies self@[i] != self@[j] by {
                if j == self@.len() - 1 {
                    assert(old(self)@[i] == self@[i]);
                }
            }
        }
    }

    /// Folds the trait types of `attrs`, in order, into the columns.
    pub fn add_traits(&mut self, attrs: &Vec<Attribute>)
        requires
            old(self).wf(),
        ensures
            final(self).wf(),
            final(self)@ == fold_traits(old(self)@, trait_types(attrs@)),
    {
        let mut i: usize = 0;
        while i < attrs.len()
            invariant
                i <= attrs@.len(),
                self.wf(),
                self@ == fold_traits(old(self)@, trait_types(attrs@.subrange(0, i as int))),
            decreases attrs@.len() - i,
        {
            self.add(&attrs[i].trait_type);
            proof {
                let ts = trait_types(attrs@.subrange(0, i + 1));
                assert(ts.drop_last() =~= trait_types(attrs@.subrange(0, i as int)));
                assert(ts.last() == attrs@[i as int].trait_type@);
            }
            i = i + 1;
        }
        assert(attrs@.subrange(0, attrs@.len() as int) =~= attrs@);
    }
}

/// A token id with its metadata.
pub struct TokenEntry {
    pub id: u64,
    pub metadata: Metadata,
}

pub open spec fn keys_unique(s: Seq<TokenEntry>) -> bool {
    forall|i: int, j: int| 0 <= i < j < s.len() ==> s[i].id != s[j].id
}

/// The greatest index below `end` whose entry has key `id`, or -1.
pub open spec fn key_index_upto(s: Seq<TokenEntry>, id: u64, end: int) -> int
    decreases end,
{
    if end <= 0 {
        -1
    } else if s[end - 1].id == id {
        end - 1
    } else {
        key_index_upto(s, id, end - 1)
    }
}

/// The index of the entry with key `id`, or -1.
pub open spec fn key_index(s: Seq<TokenEntry>, id: u64) -> int {
    key_index_upto(s, id, s.len() as int)
}

proof fn lemma_key_index_upto(s: Seq<TokenEntry>, id: u64, end: int)
    requires
        end <= s.len(),
    ensures
        -1 <= key_index_upto(s, id, end) < end || key_index_upto(s, id, end) == -1,
        key_index_upto(s, id, end) >= 0 ==> s[key_index_upto(s, id, end)].id == id,
        key_index_upto(s, id, end) == -1 ==> forall|k: int| 0 <= k < end ==> s[k].id != id,
    decreases end,
{
    if end > 0 && s[end - 1].id != id {
        lemma_key_index_upto(s, id, end - 1);
    }
}

/// Token ids mapped to their metadata; each id appears once.
pub struct MetadataTable {
    entries: Vec<TokenEntry>,
}

impl MetadataTable {
    /// The entries, in insertion order.
    pub closed spec fn entries(&self) -> Seq<TokenEntry> {
        self.entries@
    }

    pub open spec fn wf(&self) -> bool {
        keys_unique(self.entries())
    }

    pub fn new() -> (r: MetadataTable)
        ensures
            r.wf(),
            r.entries() == Seq::<TokenEntry>::empty(),
    {
        MetadataTable { entries: Vec::new() }
    }

    pub fn len(&self) -> (r: usize)
        ensures
            r == self.entries().len(),
    {
        self.entries.len()
    }

    /// The entry at position `i` in insertion order.
    pub fn entry(&self, i: usize) -> (r: &TokenEntry)
        requires
            i < self.entries().len(),
        ensures
            *r == self.entries()[i as int],
    {
        &self.entries[i]
    }

    /// The position of the entry with key `id`, if any.
    pub fn position(&self, id: u64) -> (r: Option<usize>)
        ensures
            match r {
                Some(k) => k as int == key_index(self.entries(), id),
                None => key_index(self.entries(), id) == -1,
            },
    {
        let mut i: usize = self.entries.len();
        while i > 0
            invariant
                i <= self.entries@.len(),
                key_index(self.entries(), id) == key_index_upto(self.entries(), id, i as int),
            decreases i,
        {
            if self.entries[i - 1].id == id {
                return Some(i - 1);
            }
            i = i - 1;
        }
        None
    }

    /// Maps `id` to `metadata`, replacing the metadata it had.
    pub fn insert(&mut self, id: u64, metadata: Metadata)
        requires
            old(self).wf(),
        ensures
            final(self).wf(),
            key_index(old(self).entries(), id) >= 0 ==> final(self).entries() == old(self).entries().update(
                key_index(old(self).entries(), id),
                (TokenEntry { id, metadata }),
            ),
            key_index(old(self).entries(), id) == -1 ==> final(self).entries() == old(self).entries().push(
                (TokenEntry { id, metadata }),
            ),
    {
        proof {
            lemma_key_index_upto(self.entries(), id, self.entries().len() as int);
        }
        match self.position(id) {
            Some(k) => {
                self.entries.set(k, TokenEntry { id, metadata });
            },
            None => {
                self.entries.push(TokenEntry { id, metadata });
            },
        }
    }
}

/// The value of the last attribute whose trait type is `t`.
pub open spec fn last_value(attrs: Seq<Attribute>, t: Seq<char>) -> Option<Seq<char>>
    decreases attrs.len(),
{
    if attrs.len() == 0 {
        None
    } else if attrs.last().trait_type@ == t {
        Some(attrs.last().value@)
    } else {
        last_value(attrs.drop_last(), t)
    }
}

/// The cell of column `j`: the id, the name, or the attribute value, empty
/// where the token has no such attribute.
pub open spec fn cell(id: u64, m: Metadata, headers: Seq<Seq<char>>, j: int) -> Seq<char> {
    if j == 0 {
        decimal(id as nat)
    } else if j == 1 {
        m.name@
    } else {
        match last_value(m.attributes@, headers[j]) {
            Some(v) => v,
            None => Seq::<char>::empty(),
        }
    }
}

/// One cell for each column.
pub open spec fn row_of(id: u64, m: Metadata, headers: Seq<Seq<char>>) -> Seq<Seq<char>> {
    Seq::new(headers.len(), |j: int| cell(id, m, headers, j))
}

/// The value of the last attribute of `attrs` whose trait type is `t`.
pub fn attribute_value(attrs: &Vec<Attribute>, t: &String) -> (r: Option<String>)
    ensures
        match r {
            Some(v) => last_value(attrs@, t@) == Some(v@),
            None => last_value(attrs@, t@) is None,
        },
{
    let mut i: usize = attrs.len();
    assert(attrs@.subrange(0, i as int) =~= attrs@);
    while i > 0
        invariant
            i <= attrs@.len(),
            last_value(attrs@, t@) == last_value(attrs@.subrange(0, i as int), t@),
        decreases i,
    {
        let ghost pre = attrs@.subrange(0, i as int);
        assert(pre.drop_last() =~= attrs@.subrange(0, i - 1));
        if attrs[i - 1].trait_type == *t {
            return Some(attrs[i - 1].value.clone());
        }
        i = i - 1;
    }
    None
}

/// The row of one token: a cell for each column of `headers`.
pub fn row(id: u64, m: &Metadata, headers: &HeaderSet) -> (r: Vec<String>)
    ensures
        texts(r@) == row_of(id, *m, headers@),
{
    let names = headers.names();
    let mut cells: Vec<String> = Vec::new();
    let mut j: usize = 0;
    while j < names.len()
        invariant
            j <= names@.len(),
            texts(names@) == headers@,
            cells@.len() == j,
            forall|q: int| 0 <= q < j ==> #[trigger] cells@[q]@ == cell(id, *m, headers@, q),
        decreases names@.len() - j,
    {
        let c = if j == 0 {
            decimal_string(id as u128)
        } else if j == 1 {
            m.name.clone()
        } else {
            match attribute_value(&m.attributes, &names[j]) {
                Some(v) => v,
                None => String::new(),
            }
        };
        cells.push(c);
        j = j + 1;
    }
    assert(texts(cells@) =~= row_of(id, *m, headers@));
    cells
}

/// The rows of the tabular export, one for each entry of `table`, in its
/// order.
pub fn tabular_rows(table: &MetadataTable, headers: &HeaderSet) -> (r: Vec<Vec<String>>)
    ensures
        r@.len() == table.entries().len(),
        forall|i: int|
            0 <= i < r@.len() ==> texts(#[trigger] r@[i]@) == row_of(
                table.entries()[i].id,
                table.entries()[i].metadata,
                headers@,
            ),
{
    let mut rows: Vec<Vec<String>> = Vec::new();
    let mut i: usize = 0;
    while i < table.len()
        invariant
            i <= table.entries().len(),
            rows@.len() == i,
            forall|q: int|
                0 <= q < i ==> texts(#[trigger] rows@[q]@) == row_of(
                    table.entries()[q].id,
                    table.entries()[q].metadata,
                    headers@,
                ),
        decreases table.entries().len() - i,
    {
        let e = table.entry(i);
        rows.push(row(e.id, &e.metadata, headers));
        i = i + 1;
    }
    rows
}


/// Folding any trait types into a column list that starts with `tokenId`,
/// `name` and holds no name twice keeps those two columns first, keeps every
/// column where it was, adds each trait type, and still holds no name twice.
pub proof fn law_fold_keeps_columns(h: Seq<Seq<char>>, ts: Seq<Seq<char>>)
    requires
        h.len() >= 2,
        h[0] == token_id_column(),
        h[1] == name_column(),
        no_duplicates(h),
    ensures
        fold_traits(h, ts).len() >= h.len(),
        fold_traits(h, ts).subrange(0, h.len() as int) == h,
        fold_traits(h, ts)[0] == token_id_column(),
        fold_traits(h, ts)[1] == name_column(),
        no_duplicates(fold_traits(h, ts)),
        forall|k: int| 0 <= k < ts.len() ==> fold_traits(h, ts).contains(#[trigger] ts[k]),
    decreases ts.len(),
{
    if ts.len() == 0 {
        assert(h.subrange(0, h.len() as int) =~= h);
    } else {
        let pre = ts.drop_last();
        law_fold_keeps_columns(h, pre);
        let g = fold_traits(h, pre);
        if !g.contains(ts.last()) {
            let g2 = g.push(ts.last());
            assert(g2.subrange(0, h.len() as int) =~= g.subrange(0, h.len() as int));
            assert forall|i: int, j: int| 0 <= i < j < g2.len() implies g2[i] != g2[j] by {
                if j == g2.len() - 1 {
                    assert(g.contains(g[i]));
                }
            }
            assert forall|k: int| 0 <= k < ts.len() implies g2.contains(#[trigger] ts[k]) by {
                if k < ts.len() - 1 {
                    assert(pre[k] == ts[k]);
                    let w = choose|w: int| 0 <= w < g.len() && g[w] == pre[k];
                    assert(g2[w] == ts[k]);
                } else {
                    assert(g2[g.len() as int] == ts[k]);
                }
            }
        } else {
            assert forall|k: int| 0 <= k < ts.len() implies g.contains(#[trigger] ts[k]) by {
                if k < ts.len() - 1 {
                    assert(pre[k] == ts[k]);
                }
            }
        }
    }
}

/// Each entry of a table gets exactly one row, at its own position, with one
/// cell for each column; no two rows belong to the same token id.
pub proof fn law_one_row_per_key(table: MetadataTable, headers: Seq<Seq<char>>, rows: Seq<Seq<Seq<char>>>)
    requires
        table.wf(),
        rows.len() == table.entries().len(),
        forall|i: int|
            0 <= i < rows.len() ==> #[trigger] rows[i] == row_of(
                table.entries()[i].id,
                table.entries()[i].metadata,
                headers,
            ),
    ensures
        forall|i: int| 0 <= i < rows.len() ==> (#[trigger] rows[i]).len() == headers.len(),
        forall|i: int| 0 <= i < rows.len() ==> #[trigger] key_index(table.entries(), table.entries()[i].id) == i,
{
    assert forall|i: int| 0 <= i < rows.len() implies #[trigger] key_index(table.entries(), table.entries()[i].id) == i by {
        let s = table.entries();
        lemma_key_index_upto(s, s[i].id, s.len() as int);
        let k = key_index(s, s[i].id);
        if k != i {
            assert(k >= 0 ==> s[k].id == s[i].id);
        }
    }
}

} // verus!
