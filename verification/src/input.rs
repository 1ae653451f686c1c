use vstd::prelude::*;

verus! {

/// The kind tag carried by a raw introspection type descriptor or
/// type-reference link.  `Other` stands for any tag outside the
/// GraphQL type system; the builder rejects it as an unhandled shape.
#[derive(Clone, Copy, Debug, PartialEq, Eq, Structural)]
pub enum TypeKind {
    Scalar,
    Object,
    Interface,
    Union,
    Enum,
    InputObject,
    NonNull,
    List,
    Other,
}

/// Why a translation run failed.  Every error is fatal: no partial
/// schema is ever produced.
#[derive(Clone, Copy, Debug, PartialEq, Eq, Structural)]
pub enum SchemaError {
    /// The document lacks `data`, `data.schema`, or the root query
    /// type's name.
    MalformedEnvelope,
    /// A descriptor's kind does not match the fields it carries, or a
    /// shape appeared that the type system does not allow.
    UnhandledShape,
    /// A type-reference chain nests wrappers beyond the supported
    /// ceiling.
    NestingTooDeep,
}

/// One link of a raw type-reference chain, as introspection encodes
/// it: either a resolved name terminates the chain, or a wrapper kind
/// points one level deeper.
pub struct TypeRefNode {
    pub kind: TypeKind,
    pub name: Option<String>,
    pub of_type: Option<Box<TypeRefNode>>,
}

/// Mathematical model of a [`TypeRefNode`].
pub struct TypeRefModel {
    pub kind: TypeKind,
    pub name: Option<Seq<char>>,
    pub of_type: Option<Box<TypeRefModel>>,
}

pub open spec fn opt_str_view(o: Option<String>) -> Option<Seq<char>> {
    match o {
        Some(s) => Some(s@),
        None => None,
    }
}

pub open spec fn type_ref_view(r: TypeRefNode) -> TypeRefModel
    decreases r,
{
    TypeRefModel {
        kind: r.kind,
        name: opt_str_view(r.name),
        of_type: match r.of_type {
            Some(inner) => Some(Box::new(type_ref_view(*inner))),
            None => None,
        },
    }
}

/// A named field of an object or input-object descriptor, with the
/// raw chain describing its declared type.
pub struct FieldDescriptor {
    pub name: String,
    pub type_ref: TypeRefNode,
}

pub struct FieldDescModel {
    pub name: Seq<char>,
    pub type_ref: TypeRefModel,
}

pub open spec fn field_desc_view(f: FieldDescriptor) -> FieldDescModel {
    FieldDescModel { name: f.name@, type_ref: type_ref_view(f.type_ref) }
}

/// One raw type descriptor of the introspection document: a kind tag,
/// a name, and the kind-dependent optional payloads.
pub struct TypeDescriptor {
    pub kind: TypeKind,
    pub name: Option<String>,
    pub fields: Option<Vec<FieldDescriptor>>,
    pub possible_types: Option<Vec<TypeRefNode>>,
    pub enum_values: Option<Vec<String>>,
    pub input_fields: Option<Vec<FieldDescriptor>>,
}

pub struct TypeDescModel {
    pub kind: TypeKind,
    pub name: Option<Seq<char>>,
    pub fields: Option<Seq<FieldDescModel>>,
    pub possible_types: Option<Seq<TypeRefModel>>,
    pub enum_values: Option<Seq<Seq<char>>>,
    pub input_fields: Option<Seq<FieldDescModel>>,
}

pub open spec fn field_descs_view(fs: Vec<FieldDescriptor>) -> Seq<FieldDescModel> {
    Seq::new(fs@.len(), |i: int| field_desc_view(fs@[i]))
}

pub open spec fn type_refs_view(rs: Vec<TypeRefNode>) -> Seq<TypeRefModel> {
    Seq::new(rs@.len(), |i: int| type_ref_view(rs@[i]))
}

pub open spec fn strings_view(vs: Vec<String>) -> Seq<Seq<char>> {
    Seq::new(vs@.len(), |i: int| vs@[i]@)
}

pub open spec fn type_desc_view(d: TypeDescriptor) -> TypeDescModel {
    TypeDescModel {
        kind: d.kind,
        name: opt_str_view(d.name),
        fields: match d.fields {
            Some(fs) => Some(field_descs_view(fs)),
            None => None,
        },
        possible_types: match d.possible_types {
            Some(rs) => Some(type_refs_view(rs)),
            None => None,
        },
        enum_values: match d.enum_values {
            Some(vs) => Some(strings_view(vs)),
            None => None,
        },
        input_fields: match d.input_fields {
            Some(fs) => Some(field_descs_view(fs)),
            None => None,
        },
    }
}

/// The schema object of the document: the root query type's name and
/// the flat list of type descriptors.
pub struct SchemaData {
    pub query_type_name: Option<String>,
    pub types: Vec<TypeDescriptor>,
}

pub struct SchemaDataModel {
    pub query_type_name: Option<Seq<char>>,
    pub types: Seq<TypeDescModel>,
}

pub open spec fn type_descs_view(ts: Vec<TypeDescriptor>) -> Seq<TypeDescModel> {
    Seq::new(ts@.len(), |i: int| type_desc_view(ts@[i]))
}

pub open spec fn schema_data_view(s: SchemaData) -> SchemaDataModel {
    SchemaDataModel {
        query_type_name: opt_str_view(s.query_type_name),
        types: type_descs_view(s.types),
    }
}

/// The `data` member of the introspection response envelope.
pub struct DocumentData {
    pub schema: Option<SchemaData>,
}

/// A whole introspection response envelope, with every layer that the
/// envelope check inspects kept optional, as the wire shape has it.
pub struct IntrospectionDocument {
    pub data: Option<DocumentData>,
}

pub struct DocumentModel {
    pub schema: Option<Option<SchemaDataModel>>,
}

pub open spec fn document_view(d: IntrospectionDocument) -> DocumentModel {
    DocumentModel {
        schema: match d.data {
            Some(dd) => Some(
                match dd.schema {
                    Some(s) => Some(schema_data_view(s)),
                    None => None,
                },
            ),
            None => None,
        },
    }
}

} // verus!
