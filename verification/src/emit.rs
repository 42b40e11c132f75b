//! The emitted surface: one companion type per schema type, exposing one
//! accessor per accessor-eligible field. A field targeting a scalar type
//! gets a presence check; any other field gets a nested-trail accessor.

use vstd::prelude::*;

use crate::idents::{camel_of, snake_of, to_camel_case, to_snake_case};
use crate::schema::{FieldDef, FieldView};

verus! {

/// What an accessor returns: a presence boolean for a scalar target, or a
/// fresh not-walked trail parameterized by the (normalized) target type.
pub enum AccessorKind {
    Presence,
    Trail { target: String },
}

/// The mathematical value of an `AccessorKind`.
pub enum AccessorKindView {
    Presence,
    Trail { target: Seq<char> },
}

impl View for AccessorKind {
    type V = AccessorKindView;

    open spec fn view(&self) -> AccessorKindView {
        match self {
            AccessorKind::Presence => AccessorKindView::Presence,
            AccessorKind::Trail { target } => AccessorKindView::Trail { target: target@ },
        }
    }
}

/// One emitted accessor: its (normalized) method name, the wire name of the
/// field it asks about, and its shape.
pub struct Accessor {
    pub name: String,
    pub wire_name: String,
    pub kind: AccessorKind,
}

/// The mathematical value of an `Accessor`.
pub struct AccessorView {
    pub name: Seq<char>,
    pub wire_name: Seq<char>,
    pub kind: AccessorKindView,
}

impl View for Accessor {
    type V = AccessorView;

    open spec fn view(&self) -> AccessorView {
        AccessorView { name: self.name@, wire_name: self.wire_name@, kind: self.kind@ }
    }
}

/// One emitted companion type: named after its schema type, exposing
/// exactly one accessor per accessor-eligible field, in `fields()` order.
pub struct CompanionType {
    pub name: String,
    pub accessors: Vec<Accessor>,
}

/// The mathematical value of a `CompanionType`.
pub struct CompanionView {
    pub name: Seq<char>,
    pub accessors: Seq<AccessorView>,
}

impl View for CompanionType {
    type V = CompanionView;

    open spec fn view(&self) -> CompanionView {
        CompanionView {
            name: self.name@,
            accessors: self.accessors@.map_values(|a: Accessor| a@),
        }
    }
}

/// The views of a sequence of companion types, in order.
pub open spec fn companions_view(s: Seq<CompanionType>) -> Seq<CompanionView> {
    s.map_values(|c: CompanionType| c@)
}

/// The closed tagged variant unifying the three generated shapes under one
/// (name, fields) capability. A union carries its resolved field set,
/// computed before construction.
pub enum TrailNode {
    Object { name: String, fields: Vec<FieldDef> },
    Interface { name: String, fields: Vec<FieldDef> },
    Union { name: String, fields: Vec<FieldDef> },
}

/// The mathematical value of a `TrailNode`.
pub enum TrailNodeView {
    Object { name: Seq<char>, fields: Seq<FieldView> },
    Interface { name: Seq<char>, fields: Seq<FieldView> },
    Union { name: Seq<char>, fields: Seq<FieldView> },
}

impl View for TrailNode {
    type V = TrailNodeView;

    open spec fn view(&self) -> TrailNodeView {
        match self {
            TrailNode::Object { name, fields } => TrailNodeView::Object {
                name: name@,
                fields: fields@.map_values(|f: FieldDef| f@),
            },
            TrailNode::Interface { name, fields } => TrailNodeView::Interface {
                name: name@,
                fields: fields@.map_values(|f: FieldDef| f@),
            },
            TrailNode::Union { name, fields } => TrailNodeView::Union {
                name: name@,
                fields: fields@.map_values(|f: FieldDef| f@),
            },
        }
    }
}

impl TrailNodeView {
    /// The schema type's name, whatever the variant.
    pub open spec fn spec_name(self) -> Seq<char> {
        match self {
            TrailNodeView::Object { name, .. } => name,
            TrailNodeView::Interface { name, .. } => name,
            TrailNodeView::Union { name, .. } => name,
        }
    }

    /// The accessor-eligible fields, whatever the variant.
    pub open spec fn spec_fields(self) -> Seq<FieldView> {
        match self {
            TrailNodeView::Object { fields, .. } => fields,
            TrailNodeView::Interface { fields, .. } => fields,
            TrailNodeView::Union { fields, .. } => fields,
        }
    }
}

impl TrailNode {
    /// The schema type's name, whatever the variant.
    pub fn name(&self) -> (r: &String)
        ensures
            r@ == self@.spec_name(),
    {
        match self {
            TrailNode::Object { name, .. } => name,
            TrailNode::Interface { name, .. } => name,
            TrailNode::Union { name, .. } => name,
        }
    }

    /// The accessor-eligible fields, whatever the variant.
    pub fn fields(&self) -> (r: &Vec<FieldDef>)
        ensures
            r@.map_values(|f: FieldDef| f@) == self@.spec_fields(),
    {
        match self {
            TrailNode::Object { fields, .. } => fields,
            TrailNode::Interface { fields, .. } => fields,
            TrailNode::Union { fields, .. } => fields,
        }
    }
}

/// Whether the classifier counts `t` among the scalar type names.
pub open spec fn is_scalar(scalars: Seq<Seq<char>>, t: Seq<char>) -> bool {
    scalars.contains(t)
}

/// The accessor emitted for one field: a presence check when its target
/// classifies as scalar, a nested-trail accessor otherwise. The method name
/// is the snake_case form of the wire name; a nested trail is parameterized
/// by the UpperCamelCase form of the target type name.
pub open spec fn accessor_of(scalars: Seq<Seq<char>>, f: FieldView) -> AccessorView {
    AccessorView {
        name: snake_of(f.name),
        wire_name: f.name,
        kind: if is_scalar(scalars, f.target_type) {
            AccessorKindView::Presence
        } else {
            AccessorKindView::Trail { target: camel_of(f.target_type) }
        },
    }
}

/// The companion type emitted for one trail node: named after the schema
/// type, one accessor per field, in `fields()` order.
pub open spec fn companion_of(scalars: Seq<Seq<char>>, node: TrailNodeView) -> CompanionView {
    CompanionView {
        name: node.spec_name(),
        accessors: node.spec_fields().map_values(|f: FieldView| accessor_of(scalars, f)),
    }
}

/// The accessor surface is a name-preserving bijection with `fields()`: one
/// accessor per field, in order, keeping its wire name and named by the
/// normalized (snake_case) form of that wire name. For an object or
/// interface node, `fields()` is exactly the declared field sequence.
pub proof fn lemma_accessor_bijection(scalars: Seq<Seq<char>>, node: TrailNodeView)
    ensures
        companion_of(scalars, node).name == node.spec_name(),
        companion_of(scalars, node).accessors.len() == node.spec_fields().len(),
        forall|i: int|
            0 <= i < node.spec_fields().len() ==> (#[trigger] companion_of(
                scalars,
                node,
            ).accessors[i]).wire_name == node.spec_fields()[i].name,
        forall|i: int|
            0 <= i < node.spec_fields().len() ==> (#[trigger] companion_of(
                scalars,
                node,
            ).accessors[i]).name == snake_of(node.spec_fields()[i].name),
{
}

/// Whether `scalars` names `t`, as the classifier asks.
pub fn classify_is_scalar(scalars: &Vec<String>, t: &String) -> (r: bool)
    ensures
        r == is_scalar(scalars@.map_values(|s: String| s@), t@),
{
    let ghost sv = scalars@.map_values(|s: String| s@);
    let mut i: usize = 0;
    while i < scalars.len()
        invariant
            0 <= i <= scalars@.len(),
            sv == scalars@.map_values(|s: String| s@),
            sv.len() == scalars@.len(),
            forall|j: int| 0 <= j < i ==> sv[j] != t@,
        decreases scalars@.len() - i,
    {
        if scalars[i] == *t {
            proof {
                assert(sv[i as int] == t@);
            }
            return true;
        }
        i += 1;
    }
    proof {
        if sv.contains(t@) {
            let w = choose|w: int| 0 <= w < sv.len() && sv[w] == t@;
            assert(sv[w] != t@);
        }
    }
    false
}

/// Emit the accessor for one field: classify its target, normalize the
/// names, and pick the accessor shape.
pub fn gen_field_walk_method(scalars: &Vec<String>, field: &FieldDef) -> (a: Accessor)
    ensures
        a@ == accessor_of(scalars@.map_values(|s: String| s@), field@),
{
    let name = to_snake_case(&field.name);
    if classify_is_scalar(scalars, &field.target_type) {
        Accessor { name, wire_name: field.name.clone(), kind: AccessorKind::Presence }
    } else {
        let target = to_camel_case(&field.target_type);
        Accessor {
            name,
            wire_name: field.name.clone(),
            kind: AccessorKind::Trail { target },
        }
    }
}

/// Emit the companion type for one trail node: one accessor per field of
/// `fields()`, in order.
pub fn gen_companion_type(scalars: &Vec<String>, node: &TrailNode) -> (c: CompanionType)
    ensures
        c@ == companion_of(scalars@.map_values(|s: String| s@), node@),
{
    let ghost sv = scalars@.map_values(|s: String| s@);
    let fields = node.fields();
    let ghost fvs = node@.spec_fields();
    let mut accessors: Vec<Accessor> = Vec::new();
    let mut i: usize = 0;
    while i < fields.len()
        invariant
            0 <= i <= fields@.len(),
            sv == scalars@.map_values(|s: String| s@),
            fvs == fields@.map_values(|f: FieldDef| f@),
            fvs.len() == fields@.len(),
            accessors@.len() == i,
            forall|j: int|
                0 <= j < i ==> #[trigger] accessors@[j]@ == accessor_of(sv, fvs[j]),
        decreases fields@.len() - i,
    {
        let a = gen_field_walk_method(scalars, &fields[i]);
        proof {
            assert(fvs[i as int] == fields@[i as int]@);
        }
        accessors.push(a);
        i += 1;
    }
    let c = CompanionType { name: node.name().clone(), accessors };
    proof {
        assert(c@.accessors =~= fvs.map_values(|f: FieldView| accessor_of(sv, f)));
    }
    c
}

} // verus!
