use vstd::prelude::*;

use crate::input::strings_view;

verus! {

/// The internal representation of one GraphQL type: a tagged tree.
/// `NonNull` and `List` wrap a nested type; the named variants only
/// ever stand at the top level of the built type list, and `Ref`
/// only ever stands nested inside a field's or member's type.
#[derive(Debug, PartialEq, Eq)]
pub enum GraphQLType {
    Ref(String),
    Scalar(String),
    Object { name: String, fields: Vec<(String, GraphQLType)> },
    Interface { name: String, impls: Vec<GraphQLType> },
    Union { name: String, types: Vec<GraphQLType> },
    Enum { name: String, values: Vec<String> },
    Input { name: String, fields: Vec<(String, GraphQLType)> },
    NonNull(Box<GraphQLType>),
    List(Box<GraphQLType>),
}

/// Mathematical model of an IR node: names become character
/// sequences and child collections become sequences.
pub enum TyModel {
    Ref(Seq<char>),
    Scalar(Seq<char>),
    Object { name: Seq<char>, fields: Seq<(Seq<char>, TyModel)> },
    Interface { name: Seq<char>, impls: Seq<TyModel> },
    Union { name: Seq<char>, types: Seq<TyModel> },
    Enum { name: Seq<char>, values: Seq<Seq<char>> },
    Input { name: Seq<char>, fields: Seq<(Seq<char>, TyModel)> },
    NonNull(Box<TyModel>),
    List(Box<TyModel>),
}

pub open spec fn ty_view(t: GraphQLType) -> TyModel
    decreases t, 0int,
{
    match t {
        GraphQLType::Ref(n) => TyModel::Ref(n@),
        GraphQLType::Scalar(n) => TyModel::Scalar(n@),
        GraphQLType::Object { name, fields } => TyModel::Object {
            name: name@,
            fields: ty_fields_view(fields, fields.len() as int),
        },
        GraphQLType::Interface { name, impls } => TyModel::Interface {
            name: name@,
            impls: tys_view(impls, impls.len() as int),
        },
        GraphQLType::Union { name, types } => TyModel::Union {
            name: name@,
            types: tys_view(types, types.len() as int),
        },
        GraphQLType::Enum { name, values } => TyModel::Enum {
            name: name@,
            values: strings_view(values),
        },
        GraphQLType::Input { name, fields } => TyModel::Input {
            name: name@,
            fields: ty_fields_view(fields, fields.len() as int),
        },
        GraphQLType::NonNull(inner) => TyModel::NonNull(Box::new(ty_view(*inner))),
        GraphQLType::List(inner) => TyModel::List(Box::new(ty_view(*inner))),
    }
}

/// Model of the first `n` entries of a field list.
pub open spec fn ty_fields_view(fs: Vec<(String, GraphQLType)>, n: int) -> Seq<(Seq<char>, TyModel)>
    decreases fs, n,
{
    if n <= 0 || n > fs.len() {
        Seq::empty()
    } else {
        ty_fields_view(fs, n - 1).push((fs[n - 1].0@, ty_view(fs[n - 1].1)))
    }
}

/// Model of the first `n` entries of a member list.
pub open spec fn tys_view(ts: Vec<GraphQLType>, n: int) -> Seq<TyModel>
    decreases ts, n,
{
    if n <= 0 || n > ts.len() {
        Seq::empty()
    } else {
        tys_view(ts, n - 1).push(ty_view(ts[n - 1]))
    }
}

pub proof fn lemma_ty_fields_view(fs: Vec<(String, GraphQLType)>, n: int)
    requires
        0 <= n <= fs.len(),
    ensures
        ty_fields_view(fs, n).len() == n,
        forall|i: int|
            0 <= i < n ==> ty_fields_view(fs, n)[i] == (fs[i].0@, ty_view(fs[i].1)),
    decreases n,
{
    if n > 0 {
        lemma_ty_fields_view(fs, n - 1);
    }
}

pub proof fn lemma_tys_view(ts: Vec<GraphQLType>, n: int)
    requires
        0 <= n <= ts.len(),
    ensures
        tys_view(ts, n).len() == n,
        forall|i: int| 0 <= i < n ==> tys_view(ts, n)[i] == ty_view(ts[i]),
    decreases n,
{
    if n > 0 {
        lemma_tys_view(ts, n - 1);
    }
}

/// Whether a node is one of the named top-level variants.
pub open spec fn is_named(t: TyModel) -> bool {
    match t {
        TyModel::Scalar(_) => true,
        TyModel::Object { .. } => true,
        TyModel::Interface { .. } => true,
        TyModel::Union { .. } => true,
        TyModel::Enum { .. } => true,
        TyModel::Input { .. } => true,
        TyModel::Ref(_) => false,
        TyModel::NonNull(_) => false,
        TyModel::List(_) => false,
    }
}

/// The name of a named node; the unnamed variants never occur where
/// this is consulted.
pub open spec fn ty_name(t: TyModel) -> Seq<char> {
    match t {
        TyModel::Scalar(n) => n,
        TyModel::Object { name, .. } => name,
        TyModel::Interface { name, .. } => name,
        TyModel::Union { name, .. } => name,
        TyModel::Enum { name, .. } => name,
        TyModel::Input { name, .. } => name,
        TyModel::Ref(n) => n,
        TyModel::NonNull(_) => Seq::empty(),
        TyModel::List(_) => Seq::empty(),
    }
}

/// The name of a named IR node, cloned out; `None` on the variants
/// that never stand at the top level of the built list.
pub fn name_of(t: &GraphQLType) -> (r: Option<String>)
    ensures
        match r {
            Some(n) => is_named(ty_view(*t)) && n@ == ty_name(ty_view(*t)),
            None => !is_named(ty_view(*t)),
        },
{
    match t {
        GraphQLType::Scalar(n) => Some(n.clone()),
        GraphQLType::Object { name, .. } => Some(name.clone()),
        GraphQLType::Interface { name, .. } => Some(name.clone()),
        GraphQLType::Union { name, .. } => Some(name.clone()),
        GraphQLType::Enum { name, .. } => Some(name.clone()),
        GraphQLType::Input { name, .. } => Some(name.clone()),
        GraphQLType::Ref(_) => None,
        GraphQLType::NonNull(_) => None,
        GraphQLType::List(_) => None,
    }
}

} // verus!
