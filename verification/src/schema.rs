//! The plain data model of a schema document as this pass reads it: named
//! fields with a target type name and a source position, grouped into
//! object, interface and union definitions.

use vstd::prelude::*;

verus! {

/// A position in the schema source text.
#[derive(Clone, Copy, PartialEq, Eq, Structural, Debug)]
pub struct Pos {
    pub line: usize,
    pub column: usize,
}

/// One declared field: its wire name, the name of the type it targets
/// (nullability and list wrappers already stripped by the caller), and where
/// it was declared.
pub struct FieldDef {
    pub name: String,
    pub target_type: String,
    pub position: Pos,
}

/// The mathematical value of a `FieldDef`.
pub struct FieldView {
    pub name: Seq<char>,
    pub target_type: Seq<char>,
    pub position: Pos,
}

impl View for FieldDef {
    type V = FieldView;

    open spec fn view(&self) -> FieldView {
        FieldView { name: self.name@, target_type: self.target_type@, position: self.position }
    }
}

impl FieldDef {
    /// An owned copy, equal to `self`.
    pub fn duplicate(&self) -> (r: FieldDef)
        ensures
            r == *self,
    {
        FieldDef {
            name: self.name.clone(),
            target_type: self.target_type.clone(),
            position: self.position,
        }
    }
}

/// An owned copy of a sequence of fields, equal to it element by element.
pub fn duplicate_fields(v: &Vec<FieldDef>) -> (r: Vec<FieldDef>)
    ensures
        r@ == v@,
{
    let mut r: Vec<FieldDef> = Vec::new();
    let mut i: usize = 0;
    while i < v.len()
        invariant
            0 <= i <= v@.len(),
            r@.len() == i,
            forall|j: int| 0 <= j < i ==> r@[j] == v@[j],
        decreases v@.len() - i,
    {
        r.push(v[i].duplicate());
        i += 1;
    }
    proof {
        assert(r@ =~= v@);
    }
    r
}

/// One top-level type definition, as far as this pass cares: anything other
/// than an object, interface or union is inert here.
pub enum TypeDef {
    Object { name: String, fields: Vec<FieldDef> },
    Interface { name: String, fields: Vec<FieldDef> },
    Union { name: String, members: Vec<String>, position: Pos },
    Other,
}

/// The mathematical value of a `TypeDef`.
pub enum TypeDefView {
    Object { name: Seq<char>, fields: Seq<FieldView> },
    Interface { name: Seq<char>, fields: Seq<FieldView> },
    Union { name: Seq<char>, members: Seq<Seq<char>>, position: Pos },
    Other,
}

impl View for TypeDef {
    type V = TypeDefView;

    open spec fn view(&self) -> TypeDefView {
        match self {
            TypeDef::Object { name, fields } => TypeDefView::Object {
                name: name@,
                fields: fields@.map_values(|f: FieldDef| f@),
            },
            TypeDef::Interface { name, fields } => TypeDefView::Interface {
                name: name@,
                fields: fields@.map_values(|f: FieldDef| f@),
            },
            TypeDef::Union { name, members, position } => TypeDefView::Union {
                name: name@,
                members: members@.map_values(|m: String| m@),
                position: *position,
            },
            TypeDef::Other => TypeDefView::Other,
        }
    }
}

/// The view of a whole document: the views of its definitions, in order.
pub open spec fn doc_view(doc: Seq<TypeDef>) -> Seq<TypeDefView> {
    doc.map_values(|d: TypeDef| d@)
}

} // verus!
