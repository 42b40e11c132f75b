//! Synthesis of "query trail" companion types from a schema document: one
//! proxy type per object, interface or union definition, letting server
//! code ask whether a nested field was requested without re-walking the
//! incoming query. Objects and interfaces expose their declared fields in
//! order; a union's structurally divergent member fields are resolved into
//! a single accessor surface, with same-name/different-target conflicts
//! reported as non-fatal diagnostics that never halt generation. The
//! emitted surface and the shared walked/not-walked trail lifecycle are
//! both stated and proved here; rendering the surface as source text, and
//! parsing schema text, live outside the library.

mod checker;
mod diag;
mod emit;
mod idents;
mod index;
mod pass;
mod schema;
mod trail;
mod unions;

pub use checker::{
    error_msg_if_field_types_dont_overlap, lemma_member_pairs_via_index, lemma_scan_appends,
    lemma_scan_concat, member_pairs, member_pairs_via, mismatch_diag, scan, scan_step, tag_owner,
    union_scan_diags, ScanState,
};
pub use diag::{
    diags_contain, diags_distinct, diags_insert, diags_view, emit_non_fatal_error, DiagView,
    Diagnostic,
};
pub use emit::{
    accessor_of, classify_is_scalar, companion_of, companions_view, gen_companion_type,
    gen_field_walk_method, is_scalar, lemma_accessor_bijection, Accessor, AccessorKind,
    AccessorKindView, AccessorView, CompanionType, CompanionView, TrailNode, TrailNodeView,
};
pub use index::{build_fields_map, indexed_fields, FieldIndex};
pub use idents::{camel_of, snake_of};
pub use pass::{
    companions_of, companions_of_defs, errors_of, errors_of_defs, lemma_errors_append_only,
    lemma_pass_deterministic, lemma_union_accessor_names, node_of_def, CodeGenPass,
};
pub use schema::{doc_view, duplicate_fields, FieldDef, FieldView, Pos, TypeDef, TypeDefView};
pub use trail::{first_named, make_query_trail, QueryTrail, SelectionNode, TrailState};
pub use unions::{
    build_union_fields_set, contains_field_name, contains_name, dedup_by_name, field_names,
    lemma_dedup_by_name, lemma_member_fields_via_index, member_fields, member_fields_via,
};
