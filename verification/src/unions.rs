//! The resolved field set of a union: one representative field per distinct
//! field name across the member types, first seen wins.

use vstd::prelude::*;

use crate::index::{indexed_fields, FieldIndex};
use crate::schema::{FieldDef, FieldView, TypeDefView};

verus! {

/// The names of a sequence of fields, in order.
pub open spec fn field_names(s: Seq<FieldView>) -> Seq<Seq<char>> {
    s.map_values(|f: FieldView| f.name)
}

/// Whether some field in `s` is named `n`.
pub open spec fn contains_name(s: Seq<FieldView>, n: Seq<char>) -> bool {
    exists|i: int| 0 <= i < s.len() && s[i].name == n
}

/// Keep, for each distinct field name, the first field of `s` carrying it,
/// in order of first occurrence.
pub open spec fn dedup_by_name(s: Seq<FieldView>) -> Seq<FieldView>
    decreases s.len(),
{
    if s.len() == 0 {
        Seq::empty()
    } else {
        let pre = dedup_by_name(s.drop_last());
        if contains_name(pre, s.last().name) {
            pre
        } else {
            pre.push(s.last())
        }
    }
}

/// The fields the members contribute, member by member in declaration order,
/// each member's indexed fields in order — looked up through the index.
pub open spec fn member_fields_via(idx: FieldIndex, members: Seq<Seq<char>>) -> Seq<FieldView>
    decreases members.len(),
{
    if members.len() == 0 {
        Seq::empty()
    } else {
        member_fields_via(idx, members.drop_last()) + idx.lookup(members.last())
    }
}

/// The fields the members contribute, stated over the document alone.
pub open spec fn member_fields(doc: Seq<TypeDefView>, members: Seq<Seq<char>>) -> Seq<FieldView>
    decreases members.len(),
{
    if members.len() == 0 {
        Seq::empty()
    } else {
        member_fields(doc, members.drop_last()) + indexed_fields(doc, members.last())
    }
}

/// An index faithful to the document makes the two statements of the member
/// contributions agree.
pub proof fn lemma_member_fields_via_index(
    idx: FieldIndex,
    doc: Seq<TypeDefView>,
    members: Seq<Seq<char>>,
)
    requires
        forall|o: Seq<char>| #[trigger] idx.lookup(o) == indexed_fields(doc, o),
    ensures
        member_fields_via(idx, members) == member_fields(doc, members),
    decreases members.len(),
{
    if members.len() > 0 {
        lemma_member_fields_via_index(idx, doc, members.drop_last());
    }
}

/// Deduplication keeps the name set and nothing else: the resolved set
/// holds exactly the distinct field names of its input, each once.
pub proof fn lemma_dedup_by_name(s: Seq<FieldView>)
    ensures
        forall|x: Seq<char>|
            field_names(dedup_by_name(s)).contains(x) <==> field_names(s).contains(x),
        forall|i: int, j: int|
            0 <= i < j < dedup_by_name(s).len() ==> dedup_by_name(s)[i].name != dedup_by_name(
                s,
            )[j].name,
    decreases s.len(),
{
    if s.len() > 0 {
        let d = s.drop_last();
        lemma_dedup_by_name(d);
        let pre = dedup_by_name(d);
        let out = dedup_by_name(s);
        assert(field_names(s) =~= field_names(d).push(s.last().name));
        if contains_name(pre, s.last().name) {
            assert(out == pre);
            let w = choose|w: int| 0 <= w < pre.len() && pre[w].name == s.last().name;
            assert(field_names(pre)[w] == s.last().name);
            assert(field_names(pre).contains(s.last().name));
            assert forall|x: Seq<char>|
                field_names(out).contains(x) <==> field_names(s).contains(x) by {
                if field_names(s).contains(x) {
                    let i = choose|i: int|
                        0 <= i < field_names(s).len() && field_names(s)[i] == x;
                    if i < d.len() {
                        assert(field_names(d)[i] == x);
                        assert(field_names(d).contains(x));
                    } else {
                        assert(x == s.last().name);
                    }
                }
                if field_names(out).contains(x) {
                    assert(field_names(d).contains(x));
                    let i = choose|i: int|
                        0 <= i < field_names(d).len() && field_names(d)[i] == x;
                    assert(field_names(s)[i] == x);
                }
            }
        } else {
            assert(out == pre.push(s.last()));
            assert(field_names(out) =~= field_names(pre).push(s.last().name));
            assert forall|x: Seq<char>|
                field_names(out).contains(x) <==> field_names(s).contains(x) by {
                if field_names(s).contains(x) {
                    let i = choose|i: int|
                        0 <= i < field_names(s).len() && field_names(s)[i] == x;
                    if i < d.len() {
                        assert(field_names(d)[i] == x);
                        assert(field_names(d).contains(x));
                        let w = choose|w: int|
                            0 <= w < field_names(pre).len() && field_names(pre)[w] == x;
                        assert(field_names(out)[w] == x);
                    } else {
                        assert(field_names(out).last() == x);
                    }
                }
                if field_names(out).contains(x) {
                    let i = choose|i: int|
                        0 <= i < field_names(out).len() && field_names(out)[i] == x;
                    if i < pre.len() {
                        assert(field_names(pre)[i] == x);
                        assert(field_names(pre).contains(x));
                        assert(field_names(d).contains(x));
                        let w = choose|w: int|
                            0 <= w < field_names(d).len() && field_names(d)[w] == x;
                        assert(field_names(s)[w] == x);
                    } else {
                        assert(x == s.last().name);
                        assert(field_names(s).last() == x);
                    }
                }
            }
            assert forall|i: int, j: int| 0 <= i < j < out.len() implies out[i].name
                != out[j].name by {
                if j < pre.len() {
                } else {
                    assert(out[j] == s.last());
                    assert(pre[i].name == out[i].name);
                    if out[i].name == s.last().name {
                        assert(contains_name(pre, s.last().name));
                    }
                }
            }
        }
    }
}

/// Whether some field of `v` is named `name`.
pub fn contains_field_name(v: &Vec<FieldDef>, name: &String) -> (r: bool)
    ensures
        r == contains_name(v@.map_values(|f: FieldDef| f@), name@),
{
    let ghost vs = v@.map_values(|f: FieldDef| f@);
    let mut i: usize = 0;
    while i < v.len()
        invariant
            0 <= i <= v@.len(),
            vs == v@.map_values(|f: FieldDef| f@),
            vs.len() == v@.len(),
            forall|j: int| 0 <= j < i ==> vs[j].name != name@,
        decreases v@.len() - i,
    {
        if v[i].name == *name {
            proof {
                assert(vs[i as int].name == name@);
            }
            return true;
        }
        i += 1;
    }
    false
}

/// Build a union's resolved field set: walk the members in declaration
/// order, fetch each member's indexed fields (a member without an entry is
/// skipped), and keep the first field seen for each distinct name.
pub fn build_union_fields_set(members: &Vec<String>, index: &FieldIndex) -> (r: Vec<FieldDef>)
    requires
        index.keys_distinct(),
    ensures
        r@.map_values(|f: FieldDef| f@) == dedup_by_name(
            member_fields_via(*index, members@.map_values(|m: String| m@)),
        ),
{
    let ghost ms = members@.map_values(|m: String| m@);
    let mut out: Vec<FieldDef> = Vec::new();
    let mut i: usize = 0;
    while i < members.len()
        invariant
            0 <= i <= members@.len(),
            index.keys_distinct(),
            ms == members@.map_values(|m: String| m@),
            ms.len() == members@.len(),
            out@.map_values(|f: FieldDef| f@) == dedup_by_name(
                member_fields_via(*index, ms.take(i as int)),
            ),
        decreases members@.len() - i,
    {
        proof {
            assert(ms.take(i + 1).drop_last() =~= ms.take(i as int));
            assert(ms.take(i + 1).last() == ms[i as int]);
            assert(ms[i as int] == members@[i as int]@);
        }
        match index.get(&members[i]) {
            Some(fields) => {
                let ghost base = member_fields_via(*index, ms.take(i as int));
                let ghost fvs = fields@.map_values(|f: FieldDef| f@);
                let mut j: usize = 0;
                while j < fields.len()
                    invariant
                        0 <= j <= fields@.len(),
                        fvs == fields@.map_values(|f: FieldDef| f@),
                        fvs.len() == fields@.len(),
                        out@.map_values(|f: FieldDef| f@) == dedup_by_name(
                            base + fvs.take(j as int),
                        ),
                    decreases fields@.len() - j,
                {
                    proof {
                        assert((base + fvs.take(j + 1)).drop_last() =~= base + fvs.take(j as int));
                        assert((base + fvs.take(j + 1)).last() == fvs[j as int]);
                        assert(fvs[j as int] == fields@[j as int]@);
                    }
                    let ghost pre_out = out@.map_values(|f: FieldDef| f@);
                    if !contains_field_name(&out, &fields[j].name) {
                        out.push(fields[j].duplicate());
                        proof {
                            assert(out@.map_values(|f: FieldDef| f@) =~= pre_out.push(
                                fields@[j as int]@,
                            ));
                        }
                    }
                    j += 1;
                }
                proof {
                    assert(fvs.take(fields@.len() as int) =~= fvs);
                    assert(base + fvs =~= member_fields_via(*index, ms.take(i + 1)));
                }
            },
            None => {
                proof {
                    assert(member_fields_via(*index, ms.take(i + 1)) =~= member_fields_via(
                        *index,
                        ms.take(i as int),
                    ));
                }
            },
        }
        i += 1;
    }
    proof {
        assert(ms.take(members@.len() as int) =~= ms);
    }
    out
}

} // verus!
