//! The union consistency scan: flag same-name fields whose member types
//! disagree on the target type. A single linear pass over the members in
//! declaration order, comparing each field against the most recently seen
//! declaration of its name — not a full pairwise comparison. Never fatal.

use vstd::prelude::*;

use crate::diag::{diags_contain, diags_insert, diags_view, DiagView, Diagnostic};
use crate::index::{indexed_fields, FieldIndex};
use crate::schema::{FieldDef, FieldView, Pos, TypeDefView};

verus! {

/// The state the scan carries: for each field name seen so far, the owning
/// member type and target type of its most recent declaration; and the
/// diagnostics recorded so far.
pub struct ScanState {
    pub prev: Map<Seq<char>, (Seq<char>, Seq<char>)>,
    pub diags: Seq<DiagView>,
}

/// The diagnostic reported when `owner_b` redeclares `field_name` (last seen
/// on `owner_a` targeting `target_a`) with the different target `target_b`.
pub open spec fn mismatch_diag(
    union_name: Seq<char>,
    position: Pos,
    field_name: Seq<char>,
    owner_a: Seq<char>,
    target_a: Seq<char>,
    owner_b: Seq<char>,
    target_b: Seq<char>,
) -> DiagView {
    DiagView {
        position: position,
        union_name: union_name,
        field_name: field_name,
        type_a: owner_a,
        type_b: owner_b,
        field_type_a: target_a,
        field_type_b: target_b,
    }
}

/// One step of the scan: seeing field `f` on member `owner`. A mismatch
/// against the rolling entry reports a diagnostic; either way the rolling
/// entry is overwritten with the current occurrence.
pub open spec fn scan_step(
    union_name: Seq<char>,
    position: Pos,
    st: ScanState,
    owner: Seq<char>,
    f: FieldView,
) -> ScanState {
    let diags = if st.prev.contains_key(f.name) && st.prev[f.name].1 != f.target_type {
        diags_insert(
            st.diags,
            mismatch_diag(
                union_name,
                position,
                f.name,
                st.prev[f.name].0,
                st.prev[f.name].1,
                owner,
                f.target_type,
            ),
        )
    } else {
        st.diags
    };
    ScanState { prev: st.prev.insert(f.name, (owner, f.target_type)), diags: diags }
}

/// The scan folded over a sequence of (owning member, field) occurrences.
pub open spec fn scan(
    union_name: Seq<char>,
    position: Pos,
    pairs: Seq<(Seq<char>, FieldView)>,
    init: ScanState,
) -> ScanState
    decreases pairs.len(),
{
    if pairs.len() == 0 {
        init
    } else {
        scan_step(
            union_name,
            position,
            scan(union_name, position, pairs.drop_last(), init),
            pairs.last().0,
            pairs.last().1,
        )
    }
}

/// Each of `fs`, tagged with its owning member type.
pub open spec fn tag_owner(owner: Seq<char>, fs: Seq<FieldView>) -> Seq<(Seq<char>, FieldView)> {
    fs.map_values(|f: FieldView| (owner, f))
}

/// Every (owning member, field) occurrence the scan visits, in scan order —
/// looked up through the index.
pub open spec fn member_pairs_via(idx: FieldIndex, members: Seq<Seq<char>>) -> Seq<
    (Seq<char>, FieldView),
>
    decreases members.len(),
{
    if members.len() == 0 {
        Seq::empty()
    } else {
        member_pairs_via(idx, members.drop_last()) + tag_owner(
            members.last(),
            idx.lookup(members.last()),
        )
    }
}

/// Every (owning member, field) occurrence, stated over the document alone.
pub open spec fn member_pairs(doc: Seq<TypeDefView>, members: Seq<Seq<char>>) -> Seq<
    (Seq<char>, FieldView),
>
    decreases members.len(),
{
    if members.len() == 0 {
        Seq::empty()
    } else {
        member_pairs(doc, members.drop_last()) + tag_owner(
            members.last(),
            indexed_fields(doc, members.last()),
        )
    }
}

/// An index faithful to the document makes the two statements of the scanned
/// occurrences agree.
pub proof fn lemma_member_pairs_via_index(
    idx: FieldIndex,
    doc: Seq<TypeDefView>,
    members: Seq<Seq<char>>,
)
    requires
        forall|o: Seq<char>| #[trigger] idx.lookup(o) == indexed_fields(doc, o),
    ensures
        member_pairs_via(idx, members) == member_pairs(doc, members),
    decreases members.len(),
{
    if members.len() > 0 {
        lemma_member_pairs_via_index(idx, doc, members.drop_last());
    }
}

/// The diagnostics a union's scan leaves in a sink that already holds
/// `init`: the union's members in declaration order, each member's indexed
/// fields in order, starting from an empty rolling map.
pub open spec fn union_scan_diags(
    union_name: Seq<char>,
    position: Pos,
    doc: Seq<TypeDefView>,
    members: Seq<Seq<char>>,
    init: Seq<DiagView>,
) -> Seq<DiagView> {
    scan(
        union_name,
        position,
        member_pairs(doc, members),
        ScanState { prev: Map::empty(), diags: init },
    ).diags
}

/// One rolling-map entry: a field name with the owning member type and
/// target type of its most recent declaration.
struct RollEntry {
    name: String,
    owner: String,
    target: String,
}

/// The rolling map of the scan, keyed by field name.
struct RollingMap {
    entries: Vec<RollEntry>,
}

impl RollingMap {
    spec fn keys_distinct(self) -> bool {
        forall|i: int, j: int|
            0 <= i < j < self.entries@.len() ==> self.entries@[i].name@ != self.entries@[j].name@
    }

    spec fn spec_contains(self, k: Seq<char>) -> bool {
        exists|i: int| 0 <= i < self.entries@.len() && self.entries@[i].name@ == k
    }

    spec fn view(self) -> Map<Seq<char>, (Seq<char>, Seq<char>)> {
        Map::new(
            |k: Seq<char>| self.spec_contains(k),
            |k: Seq<char>|
                {
                    let i = choose|i: int|
                        0 <= i < self.entries@.len() && self.entries@[i].name@ == k;
                    (self.entries@[i].owner@, self.entries@[i].target@)
                },
        )
    }

    fn find(&self, name: &String) -> (r: Option<usize>)
        requires
            self.keys_distinct(),
        ensures
            match r {
                Some(i) => 0 <= i < self.entries@.len() && self.entries@[i as int].name@ == name@
                    && self.view().contains_key(name@) && self.view()[name@] == (
                    self.entries@[i as int].owner@,
                    self.entries@[i as int].target@,
                ),
                None => !self.view().contains_key(name@),
            },
    {
        let mut i: usize = 0;
        while i < self.entries.len()
            invariant
                self.keys_distinct(),
                0 <= i <= self.entries@.len(),
                forall|j: int| 0 <= j < i ==> self.entries@[j].name@ != name@,
            decreases self.entries@.len() - i,
        {
            if self.entries[i].name == *name {
                proof {
                    assert(self.spec_contains(name@));
                    let w = choose|w: int|
                        0 <= w < self.entries@.len() && self.entries@[w].name@ == name@;
                    if w != i {
                        assert(self.entries@[w].name@ != self.entries@[i as int].name@);
                    }
                }
                return Some(i);
            }
            i += 1;
        }
        None
    }

    /// Record `name -> (owner, target)`, overwriting any earlier entry.
    fn insert(&mut self, name: String, owner: String, target: String)
        requires
            old(self).keys_distinct(),
        ensures
            final(self).keys_distinct(),
            final(self).view() == old(self).view().insert(name@, (owner@, target@)),
    {
        let ghost pre = *self;
        match self.find(&name) {
            Some(i) => {
                self.entries.remove(i);
                self.entries.insert(i, RollEntry { name, owner, target });
                proof {
                    assert(self.entries@.len() == pre.entries@.len());
                    assert(forall|j: int|
                        0 <= j < self.entries@.len() && j != i ==> self.entries@[j]
                            == pre.entries@[j]);
                    assert(self.keys_distinct());
                    lemma_roll_view(pre, *self, i as int);
                }
            },
            None => {
                self.entries.push(RollEntry { name, owner, target });
                proof {
                    let n = pre.entries@.len() as int;
                    assert(forall|j: int| 0 <= j < n ==> self.entries@[j] == pre.entries@[j]);
                    assert(forall|j: int| 0 <= j < n ==> pre.entries@[j].name@ != name@);
                    assert(self.keys_distinct());
                    lemma_roll_view(pre, *self, n);
                }
            },
        }
    }
}

/// After writing the entry at `p` (every other entry unchanged, and no other
/// entry sharing its key), the map view is the old view with that one key
/// bound to the new pair.
proof fn lemma_roll_view(pre: RollingMap, post: RollingMap, p: int)
    requires
        pre.keys_distinct(),
        post.keys_distinct(),
        0 <= p < post.entries@.len(),
        pre.entries@.len() == post.entries@.len() || pre.entries@.len() + 1 == post.entries@.len()
            && p == pre.entries@.len(),
        p < pre.entries@.len() ==> pre.entries@[p].name@ == post.entries@[p].name@,
        forall|j: int| 0 <= j < pre.entries@.len() && j != p ==> post.entries@[j] == pre.entries@[j],
        forall|j: int|
            0 <= j < pre.entries@.len() && j != p ==> pre.entries@[j].name@
                != post.entries@[p].name@,
    ensures
        post.view() == pre.view().insert(
            post.entries@[p].name@,
            (post.entries@[p].owner@, post.entries@[p].target@),
        ),
{
    let k = post.entries@[p].name@;
    let target = pre.view().insert(k, (post.entries@[p].owner@, post.entries@[p].target@));
    assert forall|q: Seq<char>| post.view().contains_key(q) <==> target.contains_key(q) by {
        if q == k {
            assert(post.spec_contains(k));
        } else {
            if post.spec_contains(q) {
                let w = choose|w: int|
                    0 <= w < post.entries@.len() && post.entries@[w].name@ == q;
                assert(w != p);
                assert(pre.entries@[w].name@ == q);
                assert(pre.spec_contains(q));
            }
            if pre.spec_contains(q) {
                let w = choose|w: int| 0 <= w < pre.entries@.len() && pre.entries@[w].name@ == q;
                assert(w != p);
                assert(post.entries@[w].name@ == q);
                assert(post.spec_contains(q));
            }
        }
    }
    assert forall|q: Seq<char>| post.view().contains_key(q) implies post.view()[q] == target[q] by {
        let w = choose|w: int| 0 <= w < post.entries@.len() && post.entries@[w].name@ == q;
        if q == k {
            if w != p {
                assert(post.entries@[w].name@ != post.entries@[p].name@);
            }
            assert(post.view()[q] == (post.entries@[p].owner@, post.entries@[p].target@));
        } else {
            assert(w != p);
            assert(pre.entries@[w].name@ == q);
            assert(pre.spec_contains(q));
            let v = choose|v: int| 0 <= v < pre.entries@.len() && pre.entries@[v].name@ == q;
            if v != w {
                assert(pre.entries@[v].name@ != pre.entries@[w].name@);
            }
            assert(pre.view()[q] == (pre.entries@[w].owner@, pre.entries@[w].target@));
        }
    }
    assert(post.view() =~= target);
}

/// The scan only appends to the sink: what was recorded stays, in place;
/// with set-semantics insertion a repeat-free sink stays repeat-free; and
/// every addition is a genuine mismatch report — its two target types
/// differ — tagged with this union's name and position.
pub proof fn lemma_scan_appends(
    union_name: Seq<char>,
    position: Pos,
    pairs: Seq<(Seq<char>, FieldView)>,
    init: ScanState,
)
    ensures
        init.diags.is_prefix_of(scan(union_name, position, pairs, init).diags),
        crate::diag::diags_distinct(init.diags) ==> crate::diag::diags_distinct(
            scan(union_name, position, pairs, init).diags,
        ),
        forall|k: int|
            init.diags.len() <= k < scan(union_name, position, pairs, init).diags.len()
                ==> {
                let d = #[trigger] scan(union_name, position, pairs, init).diags[k];
                &&& d.field_type_a != d.field_type_b
                &&& d.union_name == union_name
                &&& d.position == position
            },
    decreases pairs.len(),
{
    if pairs.len() == 0 {
        assert(init.diags.is_prefix_of(init.diags)) by {
            assert(init.diags.take(init.diags.len() as int) =~= init.diags);
        }
    } else {
        lemma_scan_appends(union_name, position, pairs.drop_last(), init);
        let st = scan(union_name, position, pairs.drop_last(), init);
        let post = scan(union_name, position, pairs, init);
        let owner = pairs.last().0;
        let f = pairs.last().1;
        if st.prev.contains_key(f.name) && st.prev[f.name].1 != f.target_type {
            let d = mismatch_diag(
                union_name,
                position,
                f.name,
                st.prev[f.name].0,
                st.prev[f.name].1,
                owner,
                f.target_type,
            );
            if diags_contain(st.diags, d) {
                assert(post.diags == st.diags);
            } else {
                assert(post.diags == st.diags.push(d));
                assert(init.diags.is_prefix_of(post.diags)) by {
                    assert(post.diags.take(init.diags.len() as int) =~= st.diags.take(
                        init.diags.len() as int,
                    ));
                }
                if crate::diag::diags_distinct(init.diags) {
                    assert forall|i: int, j: int|
                        0 <= i < j < post.diags.len() implies post.diags[i] != post.diags[j] by {
                        if j == post.diags.len() - 1 {
                            if post.diags[i] == d {
                                assert(diags_contain(st.diags, d));
                            }
                        }
                    }
                }
            }
        } else {
            assert(post.diags == st.diags);
        }
    }
}

/// The scan of a concatenation is the scan of the second part started from
/// the scan of the first.
pub proof fn lemma_scan_concat(
    union_name: Seq<char>,
    position: Pos,
    a: Seq<(Seq<char>, FieldView)>,
    b: Seq<(Seq<char>, FieldView)>,
    init: ScanState,
)
    ensures
        scan(union_name, position, a + b, init) == scan(
            union_name,
            position,
            b,
            scan(union_name, position, a, init),
        ),
    decreases b.len(),
{
    if b.len() == 0 {
        assert(a + b =~= a);
    } else {
        assert((a + b).drop_last() =~= a + b.drop_last());
        assert((a + b).last() == b.last());
        lemma_scan_concat(union_name, position, a, b.drop_last(), init);
    }
}

/// Scan one member's fields, continuing a scan whose state is carried by
/// `prev` and `errors`.
fn scan_member(
    errors: &mut Vec<Diagnostic>,
    prev: &mut RollingMap,
    union_name: &String,
    position: Pos,
    owner: &String,
    fields: &Vec<FieldDef>,
)
    requires
        old(prev).keys_distinct(),
    ensures
        final(prev).keys_distinct(),
        final(prev).view() == scan(
            union_name@,
            position,
            tag_owner(owner@, fields@.map_values(|f: FieldDef| f@)),
            ScanState { prev: old(prev).view(), diags: diags_view(old(errors)@) },
        ).prev,
        diags_view(final(errors)@) == scan(
            union_name@,
            position,
            tag_owner(owner@, fields@.map_values(|f: FieldDef| f@)),
            ScanState { prev: old(prev).view(), diags: diags_view(old(errors)@) },
        ).diags,
{
    let ghost fvs = fields@.map_values(|f: FieldDef| f@);
    let ghost init = ScanState { prev: prev.view(), diags: diags_view(errors@) };
    let mut j: usize = 0;
    while j < fields.len()
        invariant
            0 <= j <= fields@.len(),
            prev.keys_distinct(),
            fvs == fields@.map_values(|f: FieldDef| f@),
            fvs.len() == fields@.len(),
            prev.view() == scan(
                union_name@,
                position,
                tag_owner(owner@, fvs.take(j as int)),
                init,
            ).prev,
            diags_view(errors@) == scan(
                union_name@,
                position,
                tag_owner(owner@, fvs.take(j as int)),
                init,
            ).diags,
        decreases fields@.len() - j,
    {
        proof {
            assert(tag_owner(owner@, fvs.take(j + 1)) =~= tag_owner(
                owner@,
                fvs.take(j as int),
            ).push((owner@, fvs[j as int])));
            assert(tag_owner(owner@, fvs.take(j + 1)).drop_last() =~= tag_owner(
                owner@,
                fvs.take(j as int),
            ));
            assert(tag_owner(owner@, fvs.take(j + 1)).last() == (owner@, fvs[j as int]));
            assert(fvs[j as int] == fields@[j as int]@);
        }
        let field = &fields[j];
        match prev.find(&field.name) {
            Some(p) => {
                if prev.entries[p].target != field.target_type {
                    crate::diag::emit_non_fatal_error(
                        errors,
                        Diagnostic::UnionFieldTypeMismatch {
                            position: position,
                            union_name: union_name.clone(),
                            field_name: field.name.clone(),
                            type_a: prev.entries[p].owner.clone(),
                            type_b: owner.clone(),
                            field_type_a: prev.entries[p].target.clone(),
                            field_type_b: field.target_type.clone(),
                        },
                    );
                }
            },
            None => {},
        }
        prev.insert(field.name.clone(), owner.clone(), field.target_type.clone());
        j += 1;
    }
    proof {
        assert(fvs.take(fields@.len() as int) =~= fvs);
    }
}

/// Scan one union for same-name fields whose member types disagree on the
/// target type, reporting each mismatch against the most recently seen
/// declaration of that name. Diagnostics accumulate in `errors`; the scan
/// never aborts.
pub fn error_msg_if_field_types_dont_overlap(
    errors: &mut Vec<Diagnostic>,
    union_name: &String,
    position: Pos,
    members: &Vec<String>,
    index: &FieldIndex,
)
    requires
        index.keys_distinct(),
    ensures
        diags_view(final(errors)@) == scan(
            union_name@,
            position,
            member_pairs_via(*index, members@.map_values(|m: String| m@)),
            ScanState { prev: Map::empty(), diags: diags_view(old(errors)@) },
        ).diags,
{
    let ghost ms = members@.map_values(|m: String| m@);
    let ghost init = ScanState { prev: Map::empty(), diags: diags_view(errors@) };
    let mut prev = RollingMap { entries: Vec::new() };
    proof {
        assert(prev.view() =~= Map::<Seq<char>, (Seq<char>, Seq<char>)>::empty());
    }
    let mut i: usize = 0;
    while i < members.len()
        invariant
            0 <= i <= members@.len(),
            index.keys_distinct(),
            prev.keys_distinct(),
            ms == members@.map_values(|m: String| m@),
            ms.len() == members@.len(),
            prev.view() == scan(
                union_name@,
                position,
                member_pairs_via(*index, ms.take(i as int)),
                init,
            ).prev,
            diags_view(errors@) == scan(
                union_name@,
                position,
                member_pairs_via(*index, ms.take(i as int)),
                init,
            ).diags,
        decreases members@.len() - i,
    {
        let ghost base = member_pairs_via(*index, ms.take(i as int));
        proof {
            assert(ms.take(i + 1).drop_last() =~= ms.take(i as int));
            assert(ms.take(i + 1).last() == ms[i as int]);
            assert(ms[i as int] == members@[i as int]@);
        }
        match index.get(&members[i]) {
            Some(fields) => {
                proof {
                    lemma_scan_concat(
                        union_name@,
                        position,
                        base,
                        tag_owner(ms[i as int], fields@.map_values(|f: FieldDef| f@)),
                        init,
                    );
                }
                scan_member(errors, &mut prev, union_name, position, &members[i], fields);
                proof {
                    assert(member_pairs_via(*index, ms.take(i + 1)) == base + tag_owner(
                        ms[i as int],
                        index.lookup(ms[i as int]),
                    ));
                }
            },
            None => {
                proof {
                    assert(tag_owner(ms[i as int], index.lookup(ms[i as int]))
                        =~= Seq::<(Seq<char>, FieldView)>::empty());
                    assert(member_pairs_via(*index, ms.take(i + 1)) =~= member_pairs_via(
                        *index,
                        ms.take(i as int),
                    ));
                }
            },
        }
        i += 1;
    }
    proof {
        assert(ms.take(members@.len() as int) =~= ms);
    }
}

} // verus!
