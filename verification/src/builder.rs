use vstd::prelude::*;

use crate::assoc::{assoc_update, lemma_assoc_update_absent, lemma_assoc_update_at,
    lemma_assoc_update_unique, unique_keys};
use crate::input::{field_descs_view, FieldDescModel, FieldDescriptor, SchemaError,
    strings_view, TypeDescModel, TypeDescriptor, type_desc_view, type_descs_view, TypeKind,
    type_ref_view, TypeRefModel, TypeRefNode, type_refs_view};
use crate::ir::{GraphQLType, lemma_ty_fields_view, lemma_tys_view, ty_fields_view, ty_view,
    TyModel, tys_view};

verus! {

/// How many wrapper levels a type-reference chain may nest before it
/// is rejected as too deep.  The ceiling is inherited from the fixed
/// depth to which the standard introspection query encodes chains.
pub const MAX_TYPE_DEPTH: usize = 8;

/// What resolving one chain link yields, given the wrapper budget
/// still available: a resolved name terminates the chain, a wrapper
/// kind descends with one budget unit less, and anything else is an
/// unhandled shape.
pub open spec fn spec_resolve(r: TypeRefModel, budget: int) -> Result<TyModel, SchemaError>
    decreases r,
{
    match r.name {
        Some(n) => Ok(TyModel::Ref(n)),
        None => match r.of_type {
            Some(inner) => {
                if r.kind == TypeKind::NonNull || r.kind == TypeKind::List {
                    if budget <= 0 {
                        Err(SchemaError::NestingTooDeep)
                    } else {
                        match spec_resolve(*inner, budget - 1) {
                            Ok(t) => Ok(
                                if r.kind == TypeKind::NonNull {
                                    TyModel::NonNull(Box::new(t))
                                } else {
                                    TyModel::List(Box::new(t))
                                },
                            ),
                            Err(e) => Err(e),
                        }
                    }
                } else {
                    Err(SchemaError::UnhandledShape)
                }
            },
            None => Err(SchemaError::UnhandledShape),
        },
    }
}

fn resolve_with_budget(r: &TypeRefNode, budget: usize) -> (res: Result<GraphQLType, SchemaError>)
    ensures
        match res {
            Ok(t) => spec_resolve(type_ref_view(*r), budget as int) == Ok::<
                TyModel,
                SchemaError,
            >(ty_view(t)),
            Err(e) => spec_resolve(type_ref_view(*r), budget as int) == Err::<
                TyModel,
                SchemaError,
            >(e),
        },
    decreases *r,
{
    match &r.name {
        Some(n) => Ok(GraphQLType::Ref(n.clone())),
        None => match &r.of_type {
            Some(inner) => {
                if r.kind == TypeKind::NonNull || r.kind == TypeKind::List {
                    if budget == 0 {
                        Err(SchemaError::NestingTooDeep)
                    } else {
                        match resolve_with_budget(&**inner, budget - 1) {
                            Ok(t) => {
                                if r.kind == TypeKind::NonNull {
                                    Ok(GraphQLType::NonNull(Box::new(t)))
                                } else {
                                    Ok(GraphQLType::List(Box::new(t)))
                                }
                            },
                            Err(e) => Err(e),
                        }
                    }
                } else {
                    Err(SchemaError::UnhandledShape)
                }
            },
            None => Err(SchemaError::UnhandledShape),
        },
    }
}

/// Resolves one raw type-reference chain into an IR type, descending
/// through at most [`MAX_TYPE_DEPTH`] wrapper levels.
pub fn resolve_type_ref(r: &TypeRefNode) -> (res: Result<GraphQLType, SchemaError>)
    ensures
        match res {
            Ok(t) => spec_resolve(type_ref_view(*r), MAX_TYPE_DEPTH as int) == Ok::<
                TyModel,
                SchemaError,
            >(ty_view(t)),
            Err(e) => spec_resolve(type_ref_view(*r), MAX_TYPE_DEPTH as int) == Err::<
                TyModel,
                SchemaError,
            >(e),
        },
{
    resolve_with_budget(r, MAX_TYPE_DEPTH)
}

/// What building a field list yields: each field's chain resolved in
/// order, inserted under the field's name with last-write-wins.
pub open spec fn spec_build_fields(
    fs: Seq<FieldDescModel>,
    acc: Seq<(Seq<char>, TyModel)>,
) -> Result<Seq<(Seq<char>, TyModel)>, SchemaError>
    decreases fs.len(),
{
    if fs.len() == 0 {
        Ok(acc)
    } else {
        match spec_resolve(fs[0].type_ref, MAX_TYPE_DEPTH as int) {
            Ok(t) => spec_build_fields(fs.drop_first(), assoc_update(acc, fs[0].name, t)),
            Err(e) => Err(e),
        }
    }
}

/// What building an interface's or union's member list yields: each
/// possible type's chain must resolve to a bare reference.
pub open spec fn spec_build_members(rs: Seq<TypeRefModel>, acc: Seq<TyModel>) -> Result<
    Seq<TyModel>,
    SchemaError,
>
    decreases rs.len(),
{
    if rs.len() == 0 {
        Ok(acc)
    } else {
        match spec_resolve(rs[0], MAX_TYPE_DEPTH as int) {
            Ok(TyModel::Ref(n)) => spec_build_members(rs.drop_first(), acc.push(TyModel::Ref(n))),
            Ok(_) => Err(SchemaError::UnhandledShape),
            Err(e) => Err(e),
        }
    }
}

/// What building one descriptor yields, dispatching on its kind; any
/// kind/payload combination outside the table is an unhandled shape.
pub open spec fn spec_build_type(d: TypeDescModel) -> Result<TyModel, SchemaError> {
    match d.kind {
        TypeKind::Scalar => match d.name {
            Some(n) => Ok(TyModel::Scalar(n)),
            None => Err(SchemaError::UnhandledShape),
        },
        TypeKind::Object => match (d.name, d.fields) {
            (Some(n), Some(fs)) => match spec_build_fields(fs, Seq::empty()) {
                Ok(m) => Ok(TyModel::Object { name: n, fields: m }),
                Err(e) => Err(e),
            },
            _ => Err(SchemaError::UnhandledShape),
        },
        TypeKind::Interface => match (d.name, d.possible_types) {
            (Some(n), Some(rs)) => match spec_build_members(rs, Seq::empty()) {
                Ok(ms) => Ok(TyModel::Interface { name: n, impls: ms }),
                Err(e) => Err(e),
            },
            _ => Err(SchemaError::UnhandledShape),
        },
        TypeKind::Union => match (d.name, d.possible_types) {
            (Some(n), Some(rs)) => match spec_build_members(rs, Seq::empty()) {
                Ok(ms) => Ok(TyModel::Union { name: n, types: ms }),
                Err(e) => Err(e),
            },
            _ => Err(SchemaError::UnhandledShape),
        },
        TypeKind::Enum => match (d.name, d.enum_values) {
            (Some(n), Some(vs)) => Ok(TyModel::Enum { name: n, values: vs }),
            _ => Err(SchemaError::UnhandledShape),
        },
        TypeKind::InputObject => match (d.name, d.input_fields) {
            (Some(n), Some(fs)) => match spec_build_fields(fs, Seq::empty()) {
                Ok(m) => Ok(TyModel::Input { name: n, fields: m }),
                Err(e) => Err(e),
            },
            _ => Err(SchemaError::UnhandledShape),
        },
        TypeKind::NonNull => Err(SchemaError::UnhandledShape),
        TypeKind::List => Err(SchemaError::UnhandledShape),
        TypeKind::Other => Err(SchemaError::UnhandledShape),
    }
}

/// Inserts a field under its name with last-write-wins semantics: an
/// existing entry keeps its position and takes the new value.
fn fields_insert(m: &mut Vec<(String, GraphQLType)>, key: String, val: GraphQLType)
    ensures
        ty_fields_view(*final(m), final(m)@.len() as int) == assoc_update(
            ty_fields_view(*old(m), old(m)@.len() as int),
            key@,
            ty_view(val),
        ),
{
    let ghost s0 = ty_fields_view(*old(m), old(m)@.len() as int);
    let ghost keyv = key@;
    let ghost valv = ty_view(val);
    proof {
        lemma_ty_fields_view(*old(m), old(m)@.len() as int);
    }
    let mut i: usize = 0;
    while i < m.len()
        invariant
            *m == *old(m),
            keyv == key@,
            valv == ty_view(val),
            s0 == ty_fields_view(*old(m), old(m)@.len() as int),
            s0.len() == old(m)@.len(),
            i <= old(m)@.len(),
            forall|j: int| 0 <= j < i ==> (#[trigger] s0[j].0) != key@,
            forall|j: int|
                0 <= j < s0.len() ==> s0[j] == (old(m)@[j].0@, ty_view(old(m)@[j].1)),
        decreases old(m)@.len() - i,
    {
        if m[i].0 == key {
            let ghost iv = i as int;
            proof {
                assert(s0[iv].0 == keyv);
            }
            m.set(i, (key, val));
            proof {
                lemma_assoc_update_at(s0, keyv, valv, iv);
                lemma_ty_fields_view(*m, m@.len() as int);
                assert(ty_fields_view(*m, m@.len() as int) =~= s0.update(iv, (keyv, valv)));
            }
            return ;
        }
        i += 1;
    }
    m.push((key, val));
    proof {
        lemma_assoc_update_absent(s0, keyv, valv);
        lemma_ty_fields_view(*m, m@.len() as int);
        assert(ty_fields_view(*m, m@.len() as int) =~= s0.push((keyv, valv)));
    }
}

/// Builds an object's or input object's field mapping, resolving each
/// field's chain in declaration order.
pub fn build_fields(fs: &Vec<FieldDescriptor>) -> (res: Result<
    Vec<(String, GraphQLType)>,
    SchemaError,
>)
    ensures
        match res {
            Ok(m) => spec_build_fields(field_descs_view(*fs), Seq::empty()) == Ok::<
                Seq<(Seq<char>, TyModel)>,
                SchemaError,
            >(ty_fields_view(m, m@.len() as int)) && unique_keys(
                ty_fields_view(m, m@.len() as int),
            ),
            Err(e) => spec_build_fields(field_descs_view(*fs), Seq::empty()) == Err::<
                Seq<(Seq<char>, TyModel)>,
                SchemaError,
            >(e),
        },
{
    let ghost fsm = field_descs_view(*fs);
    let mut m: Vec<(String, GraphQLType)> = Vec::new();
    proof {
        assert(fsm.skip(0) =~= fsm);
    }
    let mut i: usize = 0;
    while i < fs.len()
        invariant
            fsm == field_descs_view(*fs),
            fsm.len() == fs@.len(),
            i <= fs@.len(),
            spec_build_fields(fsm, Seq::empty()) == spec_build_fields(
                fsm.skip(i as int),
                ty_fields_view(m, m@.len() as int),
            ),
            unique_keys(ty_fields_view(m, m@.len() as int)),
        decreases fs@.len() - i,
    {
        let ghost iv = i as int;
        let ghost cur = ty_fields_view(m, m@.len() as int);
        proof {
            assert(fsm.skip(iv)[0] == fsm[iv]);
            assert(fsm.skip(iv).drop_first() =~= fsm.skip(iv + 1));
        }
        let fd = &fs[i];
        let node = match resolve_type_ref(&fd.type_ref) {
            Ok(t) => t,
            Err(e) => {
                return Err(e);
            },
        };
        let key = fd.name.clone();
        let ghost keyv = key@;
        let ghost nodev = ty_view(node);
        fields_insert(&mut m, key, node);
        proof {
            lemma_assoc_update_unique(cur, keyv, nodev);
        }
        i += 1;
    }
    proof {
        assert(fsm.skip(fsm.len() as int) =~= Seq::<FieldDescModel>::empty());
    }
    Ok(m)
}

/// Builds an interface's or union's member list; every member must
/// resolve to a bare named reference.
pub fn build_members(rs: &Vec<TypeRefNode>) -> (res: Result<Vec<GraphQLType>, SchemaError>)
    ensures
        match res {
            Ok(ms) => spec_build_members(type_refs_view(*rs), Seq::empty()) == Ok::<
                Seq<TyModel>,
                SchemaError,
            >(tys_view(ms, ms@.len() as int)),
            Err(e) => spec_build_members(type_refs_view(*rs), Seq::empty()) == Err::<
                Seq<TyModel>,
                SchemaError,
            >(e),
        },
{
    let ghost rsm = type_refs_view(*rs);
    let mut ms: Vec<GraphQLType> = Vec::new();
    proof {
        assert(rsm.skip(0) =~= rsm);
    }
    let mut i: usize = 0;
    while i < rs.len()
        invariant
            rsm == type_refs_view(*rs),
            rsm.len() == rs@.len(),
            i <= rs@.len(),
            spec_build_members(rsm, Seq::empty()) == spec_build_members(
                rsm.skip(i as int),
                tys_view(ms, ms@.len() as int),
            ),
        decreases rs@.len() - i,
    {
        let ghost iv = i as int;
        let ghost cur = tys_view(ms, ms@.len() as int);
        proof {
            assert(rsm.skip(iv)[0] == rsm[iv]);
            assert(rsm.skip(iv).drop_first() =~= rsm.skip(iv + 1));
            lemma_tys_view(ms, ms@.len() as int);
        }
        let node = match resolve_type_ref(&rs[i]) {
            Ok(t) => t,
            Err(e) => {
                return Err(e);
            },
        };
        match &node {
            GraphQLType::Ref(_) => (),
            _ => {
                return Err(SchemaError::UnhandledShape);
            },
        }
        let ghost nodev = ty_view(node);
        ms.push(node);
        proof {
            lemma_tys_view(ms, ms@.len() as int);
            assert(tys_view(ms, ms@.len() as int) =~= cur.push(nodev));
        }
        i += 1;
    }
    proof {
        assert(rsm.skip(rsm.len() as int) =~= Seq::<TypeRefModel>::empty());
    }
    Ok(ms)
}

/// Builds one IR node from one raw descriptor, dispatching on its
/// kind; a kind whose required payloads are missing is rejected.
pub fn build_type(d: &TypeDescriptor) -> (res: Result<GraphQLType, SchemaError>)
    ensures
        match res {
            Ok(t) => spec_build_type(type_desc_view(*d)) == Ok::<TyModel, SchemaError>(ty_view(t)),
            Err(e) => spec_build_type(type_desc_view(*d)) == Err::<TyModel, SchemaError>(e),
        },
{
    match d.kind {
        TypeKind::Scalar => match &d.name {
            Some(n) => Ok(GraphQLType::Scalar(n.clone())),
            None => Err(SchemaError::UnhandledShape),
        },
        TypeKind::Object => match (&d.name, &d.fields) {
            (Some(n), Some(fs)) => match build_fields(fs) {
                Ok(m) => Ok(GraphQLType::Object { name: n.clone(), fields: m }),
                Err(e) => Err(e),
            },
            _ => Err(SchemaError::UnhandledShape),
        },
        TypeKind::Interface => match (&d.name, &d.possible_types) {
            (Some(n), Some(rs)) => match build_members(rs) {
                Ok(ms) => Ok(GraphQLType::Interface { name: n.clone(), impls: ms }),
                Err(e) => Err(e),
            },
            _ => Err(SchemaError::UnhandledShape),
        },
        TypeKind::Union => match (&d.name, &d.possible_types) {
            (Some(n), Some(rs)) => match build_members(rs) {
                Ok(ms) => Ok(GraphQLType::Union { name: n.clone(), types: ms }),
                Err(e) => Err(e),
            },
            _ => Err(SchemaError::UnhandledShape),
        },
        TypeKind::Enum => match (&d.name, &d.enum_values) {
            (Some(n), Some(vs)) => {
                let values = clone_strings(vs);
                proof {
                    assert(strings_view(values) =~= strings_view(*vs));
                }
                Ok(GraphQLType::Enum { name: n.clone(), values })
            },
            _ => Err(SchemaError::UnhandledShape),
        },
        TypeKind::InputObject => match (&d.name, &d.input_fields) {
            (Some(n), Some(fs)) => match build_fields(fs) {
                Ok(m) => Ok(GraphQLType::Input { name: n.clone(), fields: m }),
                Err(e) => Err(e),
            },
            _ => Err(SchemaError::UnhandledShape),
        },
        TypeKind::NonNull => Err(SchemaError::UnhandledShape),
        TypeKind::List => Err(SchemaError::UnhandledShape),
        TypeKind::Other => Err(SchemaError::UnhandledShape),
    }
}

/// Copies a list of names, keeping their contents.
fn clone_strings(vs: &Vec<String>) -> (r: Vec<String>)
    ensures
        r@.len() == vs@.len(),
        forall|i: int| 0 <= i < vs@.len() ==> (#[trigger] r@[i])@ == vs@[i]@,
{
    let mut r: Vec<String> = Vec::new();
    let mut i: usize = 0;
    while i < vs.len()
        invariant
            i <= vs@.len(),
            r@.len() == i,
            forall|j: int| 0 <= j < i ==> (#[trigger] r@[j])@ == vs@[j]@,
        decreases vs@.len() - i,
    {
        r.push(vs[i].clone());
        i += 1;
    }
    r
}

/// What building the whole descriptor list yields: one IR node per
/// descriptor, in order; the first failure aborts the build.
pub open spec fn spec_build_schema(ds: Seq<TypeDescModel>, acc: Seq<TyModel>) -> Result<
    Seq<TyModel>,
    SchemaError,
>
    decreases ds.len(),
{
    if ds.len() == 0 {
        Ok(acc)
    } else {
        match spec_build_type(ds[0]) {
            Ok(t) => spec_build_schema(ds.drop_first(), acc.push(t)),
            Err(e) => Err(e),
        }
    }
}

/// Builds one IR node per raw descriptor, in order.
pub fn build_schema(types: &Vec<TypeDescriptor>) -> (res: Result<Vec<GraphQLType>, SchemaError>)
    ensures
        match res {
            Ok(nodes) => spec_build_schema(type_descs_view(*types), Seq::empty()) == Ok::<
                Seq<TyModel>,
                SchemaError,
            >(tys_view(nodes, nodes@.len() as int)),
            Err(e) => spec_build_schema(type_descs_view(*types), Seq::empty()) == Err::<
                Seq<TyModel>,
                SchemaError,
            >(e),
        },
{
    let ghost dsm = type_descs_view(*types);
    let mut nodes: Vec<GraphQLType> = Vec::new();
    proof {
        assert(dsm.skip(0) =~= dsm);
    }
    let mut i: usize = 0;
    while i < types.len()
        invariant
            dsm == type_descs_view(*types),
            dsm.len() == types@.len(),
            i <= types@.len(),
            spec_build_schema(dsm, Seq::empty()) == spec_build_schema(
                dsm.skip(i as int),
                tys_view(nodes, nodes@.len() as int),
            ),
        decreases types@.len() - i,
    {
        let ghost iv = i as int;
        let ghost cur = tys_view(nodes, nodes@.len() as int);
        proof {
            assert(dsm.skip(iv)[0] == dsm[iv]);
            assert(dsm.skip(iv).drop_first() =~= dsm.skip(iv + 1));
            lemma_tys_view(nodes, nodes@.len() as int);
        }
        let node = match build_type(&types[i]) {
            Ok(t) => t,
            Err(e) => {
                return Err(e);
            },
        };
        let ghost nodev = ty_view(node);
        nodes.push(node);
        proof {
            lemma_tys_view(nodes, nodes@.len() as int);
            assert(tys_view(nodes, nodes@.len() as int) =~= cur.push(nodev));
        }
        i += 1;
    }
    proof {
        assert(dsm.skip(dsm.len() as int) =~= Seq::<TypeDescModel>::empty());
    }
    Ok(nodes)
}

} // verus!
