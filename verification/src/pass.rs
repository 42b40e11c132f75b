//! The generation pass: walk a document's type definitions in order, emit
//! one companion type per object, interface and union definition, and
//! accumulate union-consistency diagnostics — never aborting.

use vstd::prelude::*;

use crate::checker::{
    error_msg_if_field_types_dont_overlap, lemma_member_pairs_via_index, scan, union_scan_diags,
    ScanState,
};
use crate::diag::{diags_view, DiagView, Diagnostic};
use crate::emit::{
    companion_of, companions_view, gen_companion_type, CompanionType, CompanionView, TrailNode,
    TrailNodeView,
};
use crate::index::{build_fields_map, indexed_fields, FieldIndex};
use crate::schema::{doc_view, duplicate_fields, Pos, TypeDef, TypeDefView};
use crate::unions::{
    build_union_fields_set, dedup_by_name, lemma_member_fields_via_index, member_fields,
};

verus! {

/// The trail node a definition gives rise to: objects and interfaces carry
/// their declared fields in declaration order, a union carries its resolved
/// field set; any other definition gives none.
pub open spec fn node_of_def(doc: Seq<TypeDefView>, d: TypeDefView) -> Option<TrailNodeView> {
    match d {
        TypeDefView::Object { name, fields } => Some(TrailNodeView::Object { name, fields }),
        TypeDefView::Interface { name, fields } => Some(
            TrailNodeView::Interface { name, fields },
        ),
        TypeDefView::Union { name, members, position } => Some(
            TrailNodeView::Union { name, fields: dedup_by_name(member_fields(doc, members)) },
        ),
        TypeDefView::Other => None,
    }
}

/// The companion types the pass emits for the definitions `defs`, in order,
/// with union field sets resolved against the whole document `doc`.
pub open spec fn companions_of_defs(
    scalars: Seq<Seq<char>>,
    doc: Seq<TypeDefView>,
    defs: Seq<TypeDefView>,
) -> Seq<CompanionView>
    decreases defs.len(),
{
    if defs.len() == 0 {
        Seq::empty()
    } else {
        companions_of_defs(scalars, doc, defs.drop_last()) + match node_of_def(doc, defs.last()) {
            Some(n) => seq![companion_of(scalars, n)],
            None => Seq::empty(),
        }
    }
}

/// Every companion type the pass emits for `doc`, in definition order.
pub open spec fn companions_of(scalars: Seq<Seq<char>>, doc: Seq<TypeDefView>) -> Seq<
    CompanionView,
> {
    companions_of_defs(scalars, doc, doc)
}

/// The diagnostic sink after scanning the unions among `defs` in order,
/// starting from `init`.
pub open spec fn errors_of_defs(
    doc: Seq<TypeDefView>,
    defs: Seq<TypeDefView>,
    init: Seq<DiagView>,
) -> Seq<DiagView>
    decreases defs.len(),
{
    if defs.len() == 0 {
        init
    } else {
        let pre = errors_of_defs(doc, defs.drop_last(), init);
        match defs.last() {
            TypeDefView::Union { name, members, position } => union_scan_diags(
                name,
                position,
                doc,
                members,
                pre,
            ),
            _ => pre,
        }
    }
}

/// The diagnostic sink after a whole pass over `doc`, starting from `init`.
pub open spec fn errors_of(doc: Seq<TypeDefView>, init: Seq<DiagView>) -> Seq<DiagView> {
    errors_of_defs(doc, doc, init)
}

/// For a union definition, the emitted accessor surface covers exactly the
/// distinct-by-name union of the member types' declared field names: its
/// wire-name set equals that union's field-name set, no wire name repeats,
/// and each accessor is named by the normalized form of its wire name.
pub proof fn lemma_union_accessor_names(
    scalars: Seq<Seq<char>>,
    doc: Seq<TypeDefView>,
    name: Seq<char>,
    members: Seq<Seq<char>>,
    position: Pos,
)
    ensures
        ({
            let d = TypeDefView::Union { name, members, position };
            let c = companion_of(scalars, node_of_def(doc, d).unwrap());
            let wire_names = c.accessors.map_values(|a: crate::emit::AccessorView| a.wire_name);
            &&& wire_names.to_set() == crate::unions::field_names(
                member_fields(doc, members),
            ).to_set()
            &&& forall|i: int, j: int|
                0 <= i < j < c.accessors.len() ==> c.accessors[i].wire_name
                    != c.accessors[j].wire_name
            &&& forall|i: int|
                0 <= i < c.accessors.len() ==> (#[trigger] c.accessors[i]).name
                    == crate::idents::snake_of(c.accessors[i].wire_name)
        }),
{
    let d = TypeDefView::Union { name, members, position };
    let node = node_of_def(doc, d).unwrap();
    let c = companion_of(scalars, node);
    let resolved = dedup_by_name(member_fields(doc, members));
    let wire_names = c.accessors.map_values(|a: crate::emit::AccessorView| a.wire_name);
    crate::unions::lemma_dedup_by_name(member_fields(doc, members));
    assert(node.spec_fields() == resolved);
    assert(wire_names =~= crate::unions::field_names(resolved));
    assert(wire_names.to_set() =~= crate::unions::field_names(member_fields(doc, members)).to_set());
}

proof fn lemma_errors_of_defs_append_only(
    doc: Seq<TypeDefView>,
    defs: Seq<TypeDefView>,
    init: Seq<DiagView>,
)
    ensures
        errors_of_defs(doc, defs, init).len() >= init.len(),
        forall|k: int|
            0 <= k < init.len() ==> #[trigger] errors_of_defs(doc, defs, init)[k] == init[k],
        crate::diag::diags_distinct(init) ==> crate::diag::diags_distinct(
            errors_of_defs(doc, defs, init),
        ),
        forall|k: int|
            init.len() <= k < errors_of_defs(doc, defs, init).len() ==> (
            #[trigger] errors_of_defs(doc, defs, init)[k]).field_type_a != errors_of_defs(
                doc,
                defs,
                init,
            )[k].field_type_b,
    decreases defs.len(),
{
    if defs.len() > 0 {
        lemma_errors_of_defs_append_only(doc, defs.drop_last(), init);
        let pre = errors_of_defs(doc, defs.drop_last(), init);
        let post = errors_of_defs(doc, defs, init);
        match defs.last() {
            TypeDefView::Union { name, members, position } => {
                let st = ScanState { prev: Map::empty(), diags: pre };
                crate::checker::lemma_scan_appends(
                    name,
                    position,
                    crate::checker::member_pairs(doc, members),
                    st,
                );
                let scanned = scan(
                    name,
                    position,
                    crate::checker::member_pairs(doc, members),
                    st,
                );
                assert(post == scanned.diags);
                assert(pre =~= scanned.diags.take(pre.len() as int));
                assert(forall|k: int| 0 <= k < pre.len() ==> #[trigger] post[k] == pre[k]);
            },
            _ => {},
        }
    }
}

/// The pass only appends to the sink: diagnostics already recorded stay
/// where they were; with set-semantics insertion a repeat-free sink stays
/// repeat-free; and every diagnostic the pass adds reports a genuine
/// mismatch — its two target types differ.
pub proof fn lemma_errors_append_only(doc: Seq<TypeDefView>, init: Seq<DiagView>)
    ensures
        errors_of(doc, init).len() >= init.len(),
        forall|k: int| 0 <= k < init.len() ==> #[trigger] errors_of(doc, init)[k] == init[k],
        crate::diag::diags_distinct(init) ==> crate::diag::diags_distinct(errors_of(doc, init)),
        forall|k: int|
            init.len() <= k < errors_of(doc, init).len() ==> (#[trigger] errors_of(
                doc,
                init,
            )[k]).field_type_a != errors_of(doc, init)[k].field_type_b,
{
    lemma_errors_of_defs_append_only(doc, doc, init);
}

/// Idempotence: the pass is a function of the document, the classifier's
/// scalar names and the starting sink alone, so repeated runs over the same
/// document emit the same companion sequence and leave the same diagnostic
/// set — as a sequence, hence also as an unordered set.
pub proof fn lemma_pass_deterministic(
    scalars: Seq<Seq<char>>,
    doc: Seq<TypeDefView>,
    init: Seq<DiagView>,
    companions_a: Seq<CompanionView>,
    errors_a: Seq<DiagView>,
    companions_b: Seq<CompanionView>,
    errors_b: Seq<DiagView>,
)
    requires
        companions_a == companions_of(scalars, doc),
        errors_a == errors_of(doc, init),
        companions_b == companions_of(scalars, doc),
        errors_b == errors_of(doc, init),
    ensures
        companions_a == companions_b,
        errors_a == errors_b,
        errors_a.to_set() == errors_b.to_set(),
{
}

/// The generation pass: the companion types emitted so far and the
/// diagnostic sink, plus the classifier's scalar type names.
pub struct CodeGenPass {
    pub companions: Vec<CompanionType>,
    pub errors: Vec<Diagnostic>,
    pub scalar_names: Vec<String>,
}

impl CodeGenPass {
    /// The classifier's scalar type names, as values.
    pub open spec fn scalars(self) -> Seq<Seq<char>> {
        self.scalar_names@.map_values(|s: String| s@)
    }

    /// A fresh pass: nothing emitted, nothing reported.
    pub fn new(scalar_names: Vec<String>) -> (p: CodeGenPass)
        ensures
            p.companions@.len() == 0,
            p.errors@.len() == 0,
            p.scalar_names == scalar_names,
    {
        CodeGenPass { companions: Vec::new(), errors: Vec::new(), scalar_names }
    }

    /// Emit the companion type of one trail node.
    pub fn gen_field_walk_methods(&mut self, node: TrailNode)
        ensures
            final(self).scalar_names == old(self).scalar_names,
            final(self).errors == old(self).errors,
            companions_view(final(self).companions@) == companions_view(
                old(self).companions@,
            ).push(companion_of(old(self).scalars(), node@)),
    {
        let c = gen_companion_type(&self.scalar_names, &node);
        let ghost pre = companions_view(self.companions@);
        self.companions.push(c);
        proof {
            assert(companions_view(self.companions@) =~= pre.push(c@));
        }
    }

    /// Run the whole pass over a document: index the object fields, then,
    /// definition by definition, emit companion types and scan unions for
    /// field-type mismatches. Diagnostics never halt emission.
    pub fn gen_query_trails(&mut self, doc: &Vec<TypeDef>)
        ensures
            final(self).scalar_names == old(self).scalar_names,
            companions_view(final(self).companions@) == companions_view(old(self).companions@)
                + companions_of(old(self).scalars(), doc_view(doc@)),
            diags_view(final(self).errors@) == errors_of(
                doc_view(doc@),
                diags_view(old(self).errors@),
            ),
    {
        let ghost dv = doc_view(doc@);
        let ghost init_companions = companions_view(self.companions@);
        let ghost init_errors = diags_view(self.errors@);
        let ghost sv = self.scalars();
        let ghost init_names = self.scalar_names;
        let index = build_fields_map(doc);
        let mut i: usize = 0;
        while i < doc.len()
            invariant
                0 <= i <= doc@.len(),
                dv == doc_view(doc@),
                dv.len() == doc@.len(),
                index.keys_distinct(),
                forall|o: Seq<char>| #[trigger] index.lookup(o) == indexed_fields(dv, o),
                self.scalar_names == init_names,
                self.scalars() == sv,
                companions_view(self.companions@) == init_companions + companions_of_defs(
                    sv,
                    dv,
                    dv.take(i as int),
                ),
                diags_view(self.errors@) == errors_of_defs(dv, dv.take(i as int), init_errors),
            decreases doc@.len() - i,
        {
            proof {
                assert(dv.take(i + 1).drop_last() =~= dv.take(i as int));
                assert(dv.take(i + 1).last() == dv[i as int]);
                assert(dv[i as int] == doc@[i as int]@);
            }
            let ghost pre_companions = companions_view(self.companions@);
            let ghost pre_errors = diags_view(self.errors@);
            match &doc[i] {
                TypeDef::Object { name, fields } => {
                    let node = TrailNode::Object {
                        name: name.clone(),
                        fields: duplicate_fields(fields),
                    };
                    proof {
                        assert(node@ == node_of_def(dv, dv[i as int]).unwrap());
                    }
                    self.gen_field_walk_methods(node);
                    proof {
                        assert(companions_view(self.companions@) =~= init_companions
                            + companions_of_defs(sv, dv, dv.take(i + 1)));
                        assert(errors_of_defs(dv, dv.take(i + 1), init_errors) == errors_of_defs(
                            dv,
                            dv.take(i as int),
                            init_errors,
                        ));
                    }
                },
                TypeDef::Interface { name, fields } => {
                    let node = TrailNode::Interface {
                        name: name.clone(),
                        fields: duplicate_fields(fields),
                    };
                    proof {
                        assert(node@ == node_of_def(dv, dv[i as int]).unwrap());
                    }
                    self.gen_field_walk_methods(node);
                    proof {
                        assert(companions_view(self.companions@) =~= init_companions
                            + companions_of_defs(sv, dv, dv.take(i + 1)));
                        assert(errors_of_defs(dv, dv.take(i + 1), init_errors) == errors_of_defs(
                            dv,
                            dv.take(i as int),
                            init_errors,
                        ));
                    }
                },
                TypeDef::Union { name, members, position } => {
                    let ghost msv = members@.map_values(|m: String| m@);
                    self.error_msg_if_field_types_dont_overlap(name, *position, members, &index);
                    proof {
                        lemma_member_pairs_via_index(index, dv, msv);
                        assert(diags_view(self.errors@) == union_scan_diags(
                            name@,
                            *position,
                            dv,
                            msv,
                            pre_errors,
                        ));
                        assert(errors_of_defs(dv, dv.take(i + 1), init_errors) == union_scan_diags(
                            name@,
                            *position,
                            dv,
                            msv,
                            pre_errors,
                        ));
                    }
                    let set = build_union_fields_set(members, &index);
                    proof {
                        lemma_member_fields_via_index(index, dv, msv);
                    }
                    let node = TrailNode::Union { name: name.clone(), fields: set };
                    proof {
                        assert(node@ == node_of_def(dv, dv[i as int]).unwrap());
                    }
                    self.gen_field_walk_methods(node);
                    proof {
                        assert(companions_view(self.companions@) =~= init_companions
                            + companions_of_defs(sv, dv, dv.take(i + 1)));
                    }
                },
                TypeDef::Other => {
                    proof {
                        assert(companions_of_defs(sv, dv, dv.take(i + 1)) =~= companions_of_defs(
                            sv,
                            dv,
                            dv.take(i as int),
                        ));
                        assert(errors_of_defs(dv, dv.take(i + 1), init_errors) == errors_of_defs(
                            dv,
                            dv.take(i as int),
                            init_errors,
                        ));
                    }
                },
            }
            i += 1;
        }
        proof {
            assert(dv.take(doc@.len() as int) =~= dv);
        }
    }

    /// Scan one union against the field index, recording mismatches in the
    /// pass's sink.
    pub fn error_msg_if_field_types_dont_overlap(
        &mut self,
        union_name: &String,
        position: Pos,
        members: &Vec<String>,
        index: &FieldIndex,
    )
        requires
            index.keys_distinct(),
        ensures
            final(self).scalar_names == old(self).scalar_names,
            final(self).companions == old(self).companions,
            diags_view(final(self).errors@) == scan(
                union_name@,
                position,
                crate::checker::member_pairs_via(*index, members@.map_values(|m: String| m@)),
                ScanState { prev: Map::empty(), diags: diags_view(old(self).errors@) },
            ).diags,
    {
        error_msg_if_field_types_dont_overlap(
            &mut self.errors,
            union_name,
            position,
            members,
            index,
        );
    }
}

} // verus!
