//! The field index: a lookup from object-type name to its declared fields,
//! populated only from object-type definitions, built once per pass and
//! read-only thereafter.

use vstd::prelude::*;

use crate::schema::{doc_view, duplicate_fields, FieldDef, FieldView, TypeDef, TypeDefView};

verus! {

/// The fields a single definition contributes to the index entry of `owner`:
/// an object definition named `owner` contributes its declared fields, in
/// order; every other definition contributes nothing.
pub open spec fn def_contrib(d: TypeDefView, owner: Seq<char>) -> Seq<FieldView> {
    match d {
        TypeDefView::Object { name, fields } => if name == owner {
            fields
        } else {
            Seq::empty()
        },
        _ => Seq::empty(),
    }
}

/// All fields the document's object definitions named `owner` declare, in
/// document order; empty when no such object declares any.
pub open spec fn indexed_fields(doc: Seq<TypeDefView>, owner: Seq<char>) -> Seq<FieldView>
    decreases doc.len(),
{
    if doc.len() == 0 {
        Seq::empty()
    } else {
        indexed_fields(doc.drop_last(), owner) + def_contrib(doc.last(), owner)
    }
}

/// The lookup from object-type name to declared fields.
pub struct FieldIndex {
    pub entries: Vec<(String, Vec<FieldDef>)>,
}

impl FieldIndex {
    /// No two entries share a key.
    pub open spec fn keys_distinct(self) -> bool {
        forall|i: int, j: int|
            0 <= i < j < self.entries@.len() ==> self.entries@[i].0@ != self.entries@[j].0@
    }

    /// Whether the index holds an entry for `owner`.
    pub open spec fn spec_contains(self, owner: Seq<char>) -> bool {
        exists|i: int| 0 <= i < self.entries@.len() && self.entries@[i].0@ == owner
    }

    /// The fields recorded for `owner`; empty when no entry exists.
    pub open spec fn lookup(self, owner: Seq<char>) -> Seq<FieldView> {
        if self.spec_contains(owner) {
            let i = choose|i: int| 0 <= i < self.entries@.len() && self.entries@[i].0@ == owner;
            self.entries@[i].1@.map_values(|f: FieldDef| f@)
        } else {
            Seq::empty()
        }
    }

    /// The position of the entry for `name`, if one exists.
    fn find(&self, name: &String) -> (r: Option<usize>)
        requires
            self.keys_distinct(),
        ensures
            match r {
                Some(i) => 0 <= i < self.entries@.len() && self.entries@[i as int].0@ == name@
                    && self.lookup(name@) == self.entries@[i as int].1@.map_values(
                    |f: FieldDef| f@,
                ),
                None => !self.spec_contains(name@),
            },
    {
        let mut i: usize = 0;
        while i < self.entries.len()
            invariant
                self.keys_distinct(),
                0 <= i <= self.entries@.len(),
                forall|j: int| 0 <= j < i ==> self.entries@[j].0@ != name@,
            decreases self.entries@.len() - i,
        {
            if self.entries[i].0 == *name {
                proof {
                    assert(self.spec_contains(name@));
                    let w = choose|w: int|
                        0 <= w < self.entries@.len() && self.entries@[w].0@ == name@;
                    if w != i {
                        assert(self.entries@[w].0@ != self.entries@[i as int].0@);
                    }
                }
                return Some(i);
            }
            i += 1;
        }
        None
    }

    /// The indexed fields of `name`, as the pass reads them. `None` means no
    /// entry: the caller treats the owner as contributing nothing.
    pub fn get<'a>(&'a self, name: &String) -> (r: Option<&'a Vec<FieldDef>>)
        requires
            self.keys_distinct(),
        ensures
            match r {
                Some(v) => v@.map_values(|f: FieldDef| f@) == self.lookup(name@),
                None => self.lookup(name@) == Seq::<FieldView>::empty(),
            },
    {
        match self.find(name) {
            Some(i) => Some(&self.entries[i].1),
            None => None,
        }
    }
}

/// Build the field index of a document: one entry per distinct object-type
/// name, holding every field its object definitions declare, in document
/// order. Definitions of any other kind leave no trace.
pub fn build_fields_map(doc: &Vec<TypeDef>) -> (idx: FieldIndex)
    ensures
        idx.keys_distinct(),
        forall|owner: Seq<char>| #[trigger]
            idx.lookup(owner) == indexed_fields(doc_view(doc@), owner),
{
    let ghost dv = doc_view(doc@);
    let mut idx = FieldIndex { entries: Vec::new() };
    assert(forall|owner: Seq<char>| #[trigger] idx.lookup(owner) == Seq::<FieldView>::empty());
    let mut i: usize = 0;
    while i < doc.len()
        invariant
            0 <= i <= doc@.len(),
            dv == doc_view(doc@),
            dv.len() == doc@.len(),
            idx.keys_distinct(),
            forall|owner: Seq<char>| #[trigger]
                idx.lookup(owner) == indexed_fields(dv.take(i as int), owner),
        decreases doc@.len() - i,
    {
        let ghost pre = idx;
        proof {
            assert(dv.take(i + 1).drop_last() =~= dv.take(i as int));
            assert(dv.take(i + 1).last() == dv[i as int]);
            assert(dv[i as int] == doc@[i as int]@);
        }
        match &doc[i] {
            TypeDef::Object { name, fields } => {
                let mut dup = duplicate_fields(fields);
                match idx.find(name) {
                    Some(p) => {
                        let mut entry = idx.entries.remove(p);
                        let ghost old_fields = entry.1@;
                        entry.1.append(&mut dup);
                        proof {
                            assert(entry.1@ =~= old_fields + fields@);
                        }
                        idx.entries.insert(p, entry);
                        proof {
                            assert(idx.entries@ =~= pre.entries@.update(
                                p as int,
                                (pre.entries@[p as int].0, idx.entries@[p as int].1),
                            ));
                            assert(idx.entries@[p as int].0@ == name@);
                            assert(idx.entries@.len() == pre.entries@.len());
                            assert(forall|j: int|
                                0 <= j < idx.entries@.len() && j != p
                                    ==> idx.entries@[j] == pre.entries@[j]);
                            assert(idx.keys_distinct());
                            assert forall|owner: Seq<char>| #[trigger]
                                idx.lookup(owner) == indexed_fields(dv.take(i + 1), owner) by {
                                lemma_lookup_after_update(pre, idx, p as int, owner);
                                if owner == name@ {
                                    assert(idx.entries@[p as int].1@.map_values(|f: FieldDef| f@)
                                        =~= old_fields.map_values(|f: FieldDef| f@)
                                        + fields@.map_values(|f: FieldDef| f@));
                                    assert(def_contrib(dv[i as int], owner) == fields@.map_values(
                                        |f: FieldDef| f@,
                                    ));
                                } else {
                                    assert(def_contrib(dv[i as int], owner)
                                        =~= Seq::<FieldView>::empty());
                                    assert(indexed_fields(dv.take(i + 1), owner) =~= indexed_fields(
                                        dv.take(i as int),
                                        owner,
                                    ));
                                }
                            }
                        }
                    },
                    None => {
                        idx.entries.push((name.clone(), dup));
                        proof {
                            let n = pre.entries@.len() as int;
                            assert(idx.entries@.len() == n + 1);
                            assert(forall|j: int|
                                0 <= j < n ==> idx.entries@[j] == pre.entries@[j]);
                            assert(idx.entries@[n].0@ == name@);
                            assert(forall|j: int| 0 <= j < n ==> idx.entries@[j].0@ != name@)
                                by {
                                assert(forall|j: int|
                                    0 <= j < n ==> pre.entries@[j].0@ != name@);
                            }
                            assert(idx.keys_distinct());
                            assert forall|owner: Seq<char>| #[trigger]
                                idx.lookup(owner) == indexed_fields(dv.take(i + 1), owner) by {
                                lemma_lookup_after_push(pre, idx, owner);
                                if owner == name@ {
                                    assert(idx.entries@[n].1@.map_values(|f: FieldDef| f@)
                                        =~= fields@.map_values(|f: FieldDef| f@));
                                    assert(pre.lookup(owner) == indexed_fields(
                                        dv.take(i as int),
                                        owner,
                                    ));
                                    assert(!pre.spec_contains(owner));
                                    assert(indexed_fields(dv.take(i as int), owner)
                                        == Seq::<FieldView>::empty());
                                    assert(indexed_fields(dv.take(i + 1), owner) =~= fields@
                                        .map_values(|f: FieldDef| f@));
                                } else {
                                    assert(def_contrib(dv[i as int], owner)
                                        =~= Seq::<FieldView>::empty());
                                    assert(indexed_fields(dv.take(i + 1), owner) =~= indexed_fields(
                                        dv.take(i as int),
                                        owner,
                                    ));
                                }
                            }
                        }
                    },
                }
            },
            _ => {
                proof {
                    assert forall|owner: Seq<char>| #[trigger]
                        idx.lookup(owner) == indexed_fields(dv.take(i + 1), owner) by {
                        assert(def_contrib(dv[i as int], owner) =~= Seq::<FieldView>::empty());
                        assert(indexed_fields(dv.take(i + 1), owner) =~= indexed_fields(
                            dv.take(i as int),
                            owner,
                        ));
                    }
                }
            },
        }
        i += 1;
    }
    proof {
        assert(dv.take(doc@.len() as int) =~= dv);
    }
    idx
}

/// After replacing the entry at `p` (key unchanged), lookups of that key see
/// the new fields and every other lookup is unchanged.
proof fn lemma_lookup_after_update(pre: FieldIndex, post: FieldIndex, p: int, owner: Seq<char>)
    requires
        pre.keys_distinct(),
        post.keys_distinct(),
        0 <= p < pre.entries@.len(),
        post.entries@.len() == pre.entries@.len(),
        post.entries@[p].0@ == pre.entries@[p].0@,
        forall|j: int| 0 <= j < pre.entries@.len() && j != p ==> post.entries@[j] == pre.entries@[j],
    ensures
        owner == pre.entries@[p].0@ ==> post.lookup(owner) == post.entries@[p].1@.map_values(
            |f: FieldDef| f@,
        ),
        owner != pre.entries@[p].0@ ==> post.lookup(owner) == pre.lookup(owner),
{
    if owner == pre.entries@[p].0@ {
        assert(post.spec_contains(owner));
        let w = choose|w: int| 0 <= w < post.entries@.len() && post.entries@[w].0@ == owner;
        if w != p {
            assert(post.entries@[w].0@ != post.entries@[p].0@);
        }
    } else {
        if pre.spec_contains(owner) {
            let w = choose|w: int| 0 <= w < pre.entries@.len() && pre.entries@[w].0@ == owner;
            assert(w != p);
            assert(post.entries@[w].0@ == owner);
            assert(post.spec_contains(owner));
            let w2 = choose|w2: int| 0 <= w2 < post.entries@.len() && post.entries@[w2].0@ == owner;
            if w2 != w {
                assert(post.entries@[w2].0@ != post.entries@[w].0@);
            }
            assert(w2 != p);
            assert(post.entries@[w2] == pre.entries@[w2]);
            let v = choose|v: int| 0 <= v < pre.entries@.len() && pre.entries@[v].0@ == owner;
            if v != w {
                assert(pre.entries@[v].0@ != pre.entries@[w].0@);
            }
        } else {
            if post.spec_contains(owner) {
                let w = choose|w: int|
                    0 <= w < post.entries@.len() && post.entries@[w].0@ == owner;
                assert(w != p);
                assert(pre.entries@[w].0@ == owner);
                assert(pre.spec_contains(owner));
            }
        }
    }
}

/// After pushing a fresh entry (its key held by no earlier entry), lookups of
/// the new key see its fields and every other lookup is unchanged.
proof fn lemma_lookup_after_push(pre: FieldIndex, post: FieldIndex, owner: Seq<char>)
    requires
        pre.keys_distinct(),
        post.keys_distinct(),
        post.entries@.len() == pre.entries@.len() + 1,
        forall|j: int| 0 <= j < pre.entries@.len() ==> post.entries@[j] == pre.entries@[j],
        forall|j: int|
            0 <= j < pre.entries@.len()
                ==> pre.entries@[j].0@ != post.entries@[pre.entries@.len() as int].0@,
    ensures
        owner == post.entries@[pre.entries@.len() as int].0@ ==> post.lookup(owner)
            == post.entries@[pre.entries@.len() as int].1@.map_values(|f: FieldDef| f@),
        owner != post.entries@[pre.entries@.len() as int].0@ ==> post.lookup(owner) == pre.lookup(
            owner,
        ),
{
    let n = pre.entries@.len() as int;
    if owner == post.entries@[n].0@ {
        assert(post.spec_contains(owner));
        let w = choose|w: int| 0 <= w < post.entries@.len() && post.entries@[w].0@ == owner;
        if w != n {
            assert(post.entries@[w].0@ != post.entries@[n].0@);
        }
    } else {
        if pre.spec_contains(owner) {
            let w = choose|w: int| 0 <= w < pre.entries@.len() && pre.entries@[w].0@ == owner;
            assert(post.entries@[w].0@ == owner);
            assert(post.spec_contains(owner));
            let w2 = choose|w2: int| 0 <= w2 < post.entries@.len() && post.entries@[w2].0@ == owner;
            if w2 != w {
                assert(post.entries@[w2].0@ != post.entries@[w].0@);
            }
        } else {
            if post.spec_contains(owner) {
                let w = choose|w: int|
                    0 <= w < post.entries@.len() && post.entries@[w].0@ == owner;
                assert(w != n);
                assert(pre.spec_contains(owner));
            }
        }
    }
}

} // verus!
