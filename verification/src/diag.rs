//! The one diagnostic this pass produces, and the append-only,
//! duplicate-free sink it accumulates in.

use vstd::prelude::*;

use crate::schema::Pos;

verus! {

/// A schema-authoring ambiguity surfaced during generation: two member types
/// of a union declare the same field name with different target types.
/// Non-fatal; generation always continues.
pub enum Diagnostic {
    UnionFieldTypeMismatch {
        position: Pos,
        union_name: String,
        field_name: String,
        type_a: String,
        type_b: String,
        field_type_a: String,
        field_type_b: String,
    },
}

/// The mathematical value of a `Diagnostic`.
pub struct DiagView {
    pub position: Pos,
    pub union_name: Seq<char>,
    pub field_name: Seq<char>,
    pub type_a: Seq<char>,
    pub type_b: Seq<char>,
    pub field_type_a: Seq<char>,
    pub field_type_b: Seq<char>,
}

impl View for Diagnostic {
    type V = DiagView;

    open spec fn view(&self) -> DiagView {
        match self {
            Diagnostic::UnionFieldTypeMismatch {
                position,
                union_name,
                field_name,
                type_a,
                type_b,
                field_type_a,
                field_type_b,
            } => DiagView {
                position: *position,
                union_name: union_name@,
                field_name: field_name@,
                type_a: type_a@,
                type_b: type_b@,
                field_type_a: field_type_a@,
                field_type_b: field_type_b@,
            },
        }
    }
}

impl Diagnostic {
    /// Whether two diagnostics carry the same report.
    pub fn same_as(&self, other: &Diagnostic) -> (r: bool)
        ensures
            r == (self@ == other@),
    {
        match (self, other) {
            (
                Diagnostic::UnionFieldTypeMismatch {
                    position,
                    union_name,
                    field_name,
                    type_a,
                    type_b,
                    field_type_a,
                    field_type_b,
                },
                Diagnostic::UnionFieldTypeMismatch {
                    position: o_position,
                    union_name: o_union_name,
                    field_name: o_field_name,
                    type_a: o_type_a,
                    type_b: o_type_b,
                    field_type_a: o_field_type_a,
                    field_type_b: o_field_type_b,
                },
            ) => {
                *position == *o_position && *union_name == *o_union_name
                    && *field_name == *o_field_name && *type_a == *o_type_a
                    && *type_b == *o_type_b && *field_type_a == *o_field_type_a
                    && *field_type_b == *o_field_type_b
            },
        }
    }
}

/// The views of a sequence of diagnostics, in order.
pub open spec fn diags_view(s: Seq<Diagnostic>) -> Seq<DiagView> {
    s.map_values(|d: Diagnostic| d@)
}

/// Whether `s` already holds a diagnostic with value `d`.
pub open spec fn diags_contain(s: Seq<DiagView>, d: DiagView) -> bool {
    exists|i: int| 0 <= i < s.len() && s[i] == d
}

/// Whether no diagnostic repeats in `s`.
pub open spec fn diags_distinct(s: Seq<DiagView>) -> bool {
    forall|i: int, j: int| 0 <= i < j < s.len() ==> s[i] != s[j]
}

/// Append `d` unless an equal diagnostic is already recorded: the sink has
/// set semantics under insertion.
pub open spec fn diags_insert(s: Seq<DiagView>, d: DiagView) -> Seq<DiagView> {
    if diags_contain(s, d) {
        s
    } else {
        s.push(d)
    }
}

/// Record a diagnostic in the sink, unless an equal one is already there.
pub fn emit_non_fatal_error(errors: &mut Vec<Diagnostic>, d: Diagnostic)
    ensures
        diags_view(final(errors)@) == diags_insert(diags_view(old(errors)@), d@),
{
    let mut i: usize = 0;
    while i < errors.len()
        invariant
            0 <= i <= errors@.len(),
            forall|j: int| 0 <= j < i ==> errors@[j]@ != d@,
        decreases errors@.len() - i,
    {
        if errors[i].same_as(&d) {
            proof {
                assert(diags_view(errors@)[i as int] == errors@[i as int]@);
                assert(diags_contain(diags_view(errors@), d@));
            }
            return ;
        }
        i += 1;
    }
    proof {
        assert(forall|j: int|
            0 <= j < errors@.len() ==> #[trigger] diags_view(errors@)[j] == errors@[j]@);
        assert(!diags_contain(diags_view(errors@), d@));
    }
    let ghost pre = errors@;
    errors.push(d);
    proof {
        assert(diags_view(errors@) =~= diags_view(pre).push(d@));
    }
}

} // verus!
