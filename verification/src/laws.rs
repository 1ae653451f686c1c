use vstd::prelude::*;

use crate::assoc::{assoc_keys, lemma_assoc_keys_push, unique_keys};
use crate::builder::{spec_build_type, spec_resolve, MAX_TYPE_DEPTH};
use crate::input::{SchemaError, TypeDescModel, TypeKind, TypeRefModel};
use crate::ir::{is_named, TyModel};
use crate::translate::{spec_opt_props, spec_req_props, spec_translate, FragModel, PrimType};

verus! {

/// A raw chain is well formed when every link either carries a name
/// or is a wrapper kind pointing one level deeper.
pub open spec fn chain_wf(r: TypeRefModel) -> bool
    decreases r,
{
    match r.name {
        Some(_) => true,
        None => (r.kind == TypeKind::NonNull || r.kind == TypeKind::List) && match r.of_type {
            Some(inner) => chain_wf(*inner),
            None => false,
        },
    }
}

/// How many wrapper levels a chain nests before its name.
pub open spec fn chain_depth(r: TypeRefModel) -> nat
    decreases r,
{
    match r.name {
        Some(_) => 0,
        None => match r.of_type {
            Some(inner) => 1 + chain_depth(*inner),
            None => 0,
        },
    }
}

/// The IR type a well-formed chain denotes: its wrapper nesting
/// mirrored link for link around the terminating reference.
pub open spec fn chain_mirror(r: TypeRefModel) -> TyModel
    decreases r,
{
    match r.name {
        Some(n) => TyModel::Ref(n),
        None => match r.of_type {
            Some(inner) => {
                if r.kind == TypeKind::NonNull {
                    TyModel::NonNull(Box::new(chain_mirror(*inner)))
                } else {
                    TyModel::List(Box::new(chain_mirror(*inner)))
                }
            },
            None => TyModel::Ref(Seq::empty()),
        },
    }
}

proof fn lemma_resolve_exact(r: TypeRefModel, budget: int)
    requires
        chain_wf(r),
        budget >= 0,
    ensures
        chain_depth(r) <= budget ==> spec_resolve(r, budget) == Ok::<TyModel, SchemaError>(
            chain_mirror(r),
        ),
        chain_depth(r) > budget ==> spec_resolve(r, budget) == Err::<TyModel, SchemaError>(
            SchemaError::NestingTooDeep,
        ),
    decreases r,
{
    match r.name {
        Some(_) => {},
        None => match r.of_type {
            Some(inner) => {
                if budget > 0 {
                    lemma_resolve_exact(*inner, budget - 1);
                }
            },
            None => {},
        },
    }
}

/// Law: resolving a well-formed chain terminates with the
/// `Ref`/`NonNull`/`List` nesting mirroring the input depth, for
/// every chain within the wrapper ceiling; a chain nesting one level
/// beyond it is rejected as too deep.
pub proof fn lemma_resolution_depth(r: TypeRefModel)
    requires
        chain_wf(r),
    ensures
        chain_depth(r) <= MAX_TYPE_DEPTH ==> spec_resolve(r, MAX_TYPE_DEPTH as int) == Ok::<
            TyModel,
            SchemaError,
        >(chain_mirror(r)),
        chain_depth(r) > MAX_TYPE_DEPTH ==> spec_resolve(r, MAX_TYPE_DEPTH as int) == Err::<
            TyModel,
            SchemaError,
        >(SchemaError::NestingTooDeep),
{
    lemma_resolve_exact(r, MAX_TYPE_DEPTH as int);
}

/// Law: the five built-in scalar names translate to the fixed
/// primitive table; every other scalar name translates to the
/// permissive empty fragment.
pub proof fn lemma_scalar_table(name: Seq<char>)
    ensures
        name == "Int"@ ==> spec_translate(TyModel::Scalar(name)) == FragModel::Prim(
            PrimType::Int32,
        ),
        name == "Float"@ ==> spec_translate(TyModel::Scalar(name)) == FragModel::Prim(
            PrimType::Float64,
        ),
        name == "Boolean"@ ==> spec_translate(TyModel::Scalar(name)) == FragModel::Prim(
            PrimType::Boolean,
        ),
        name == "String"@ ==> spec_translate(TyModel::Scalar(name)) == FragModel::Prim(
            PrimType::Str,
        ),
        name == "ID"@ ==> spec_translate(TyModel::Scalar(name)) == FragModel::Prim(PrimType::Str),
        name != "Int"@ && name != "Float"@ && name != "Boolean"@ && name != "String"@ && name
            != "ID"@ ==> spec_translate(TyModel::Scalar(name)) == FragModel::Empty,
{
    reveal_strlit("Int");
    reveal_strlit("Float");
    reveal_strlit("Boolean");
    reveal_strlit("String");
    reveal_strlit("ID");
    assert("Int"@.len() == 3);
    assert("Float"@.len() == 5);
    assert("Boolean"@.len() == 7);
    assert("String"@.len() == 6);
    assert("ID"@.len() == 2);
}

/// The names of the fields among the first `n` that are wrapped in
/// `NonNull`.
pub open spec fn req_key_set(fs: Seq<(Seq<char>, TyModel)>, n: int) -> Set<Seq<char>> {
    Set::new(
        |k: Seq<char>|
            exists|i: int| 0 <= i < n && (#[trigger] fs[i].0) == k && fs[i].1 is NonNull,
    )
}

/// The names of the fields among the first `n` that are not wrapped
/// in `NonNull`.
pub open spec fn opt_key_set(fs: Seq<(Seq<char>, TyModel)>, n: int) -> Set<Seq<char>> {
    Set::new(
        |k: Seq<char>|
            exists|i: int| 0 <= i < n && (#[trigger] fs[i].0) == k && !(fs[i].1 is NonNull),
    )
}

proof fn lemma_props_keys(fs: Seq<(Seq<char>, TyModel)>, n: int)
    requires
        0 <= n <= fs.len(),
    ensures
        assoc_keys(spec_req_props(fs, n)) == req_key_set(fs, n),
        assoc_keys(spec_opt_props(fs, n)) == opt_key_set(fs, n),
    decreases n,
{
    if n == 0 {
        assert(assoc_keys(spec_req_props(fs, 0)) =~= req_key_set(fs, 0));
        assert(assoc_keys(spec_opt_props(fs, 0)) =~= opt_key_set(fs, 0));
    } else {
        lemma_props_keys(fs, n - 1);
        let last = fs[n - 1];
        if last.1 is NonNull {
            let inner = match last.1 {
                TyModel::NonNull(inner) => *inner,
                _ => TyModel::Ref(Seq::empty()),
            };
            lemma_assoc_keys_push(spec_req_props(fs, n - 1), (last.0, spec_translate(inner)));
            assert forall|k: Seq<char>| req_key_set(fs, n).contains(k) implies req_key_set(
                fs,
                n - 1,
            ).insert(last.0).contains(k) by {
                let i = choose|i: int|
                    0 <= i < n && (#[trigger] fs[i].0) == k && fs[i].1 is NonNull;
                if i < n - 1 {
                    assert(req_key_set(fs, n - 1).contains(k));
                }
            }
            assert forall|k: Seq<char>| req_key_set(fs, n - 1).insert(last.0).contains(
                k,
            ) implies req_key_set(fs, n).contains(k) by {
                if k == last.0 {
                    assert(0 <= n - 1 < n && fs[n - 1].0 == k && fs[n - 1].1 is NonNull);
                } else {
                    let i = choose|i: int|
                        0 <= i < n - 1 && (#[trigger] fs[i].0) == k && fs[i].1 is NonNull;
                    assert(0 <= i < n && fs[i].0 == k && fs[i].1 is NonNull);
                }
            }
            assert(req_key_set(fs, n) =~= req_key_set(fs, n - 1).insert(last.0));
            assert forall|k: Seq<char>| opt_key_set(fs, n).contains(k) implies opt_key_set(
                fs,
                n - 1,
            ).contains(k) by {
                let i = choose|i: int|
                    0 <= i < n && (#[trigger] fs[i].0) == k && !(fs[i].1 is NonNull);
                assert(i < n - 1);
            }
            assert(opt_key_set(fs, n) =~= opt_key_set(fs, n - 1));
        } else {
            lemma_assoc_keys_push(spec_opt_props(fs, n - 1), (last.0, spec_translate(last.1)));
            assert forall|k: Seq<char>| opt_key_set(fs, n).contains(k) implies opt_key_set(
                fs,
                n - 1,
            ).insert(last.0).contains(k) by {
                let i = choose|i: int|
                    0 <= i < n && (#[trigger] fs[i].0) == k && !(fs[i].1 is NonNull);
                if i < n - 1 {
                    assert(opt_key_set(fs, n - 1).contains(k));
                }
            }
            assert forall|k: Seq<char>| opt_key_set(fs, n - 1).insert(last.0).contains(
                k,
            ) implies opt_key_set(fs, n).contains(k) by {
                if k == last.0 {
                    assert(0 <= n - 1 < n && fs[n - 1].0 == k && !(fs[n - 1].1 is NonNull));
                } else {
                    let i = choose|i: int|
                        0 <= i < n - 1 && (#[trigger] fs[i].0) == k && !(fs[i].1 is NonNull);
                    assert(0 <= i < n && fs[i].0 == k && !(fs[i].1 is NonNull));
                }
            }
            assert(opt_key_set(fs, n) =~= opt_key_set(fs, n - 1).insert(last.0));
            assert forall|k: Seq<char>| req_key_set(fs, n).contains(k) implies req_key_set(
                fs,
                n - 1,
            ).contains(k) by {
                let i = choose|i: int|
                    0 <= i < n && (#[trigger] fs[i].0) == k && fs[i].1 is NonNull;
                assert(i < n - 1);
            }
            assert(req_key_set(fs, n) =~= req_key_set(fs, n - 1));
        }
    }
}

/// Law: the properties fragment of an object with uniquely named
/// fields puts exactly the names of the `NonNull`-wrapped fields in
/// its required half and exactly the names of the other fields in
/// its optional half; the two key sets are disjoint and together are
/// exactly the field name set.  An input object translates exactly
/// as an object with the same fields does.
pub proof fn lemma_properties_partition(name: Seq<char>, fields: Seq<(Seq<char>, TyModel)>)
    requires
        unique_keys(fields),
    ensures
        ({
            let frag = spec_translate(TyModel::Object { name, fields });
            frag matches FragModel::Properties { required, optional } && {
                &&& assoc_keys(required) == req_key_set(fields, fields.len() as int)
                &&& assoc_keys(optional) == opt_key_set(fields, fields.len() as int)
                &&& assoc_keys(required).disjoint(assoc_keys(optional))
                &&& assoc_keys(required).union(assoc_keys(optional)) == assoc_keys(fields)
            }
        }),
        spec_translate(TyModel::Input { name, fields }) == spec_translate(
            TyModel::Object { name, fields },
        ),
{
    let n = fields.len() as int;
    lemma_props_keys(fields, n);
    let req = req_key_set(fields, n);
    let opt = opt_key_set(fields, n);
    assert forall|k: Seq<char>| !(req.contains(k) && opt.contains(k)) by {
        if req.contains(k) && opt.contains(k) {
            let i = choose|i: int|
                0 <= i < n && (#[trigger] fields[i].0) == k && fields[i].1 is NonNull;
            let j = choose|j: int|
                0 <= j < n && (#[trigger] fields[j].0) == k && !(fields[j].1 is NonNull);
            if i < j {
                assert(fields[i].0 != fields[j].0);
            } else if j < i {
                assert(fields[j].0 != fields[i].0);
            }
        }
    }
    assert(req.disjoint(opt));
    assert forall|k: Seq<char>| req.union(opt).contains(k) implies assoc_keys(fields).contains(
        k,
    ) by {
        if req.contains(k) {
            let i = choose|i: int|
                0 <= i < n && (#[trigger] fields[i].0) == k && fields[i].1 is NonNull;
            assert(fields[i].0 == k);
        } else {
            let i = choose|i: int|
                0 <= i < n && (#[trigger] fields[i].0) == k && !(fields[i].1 is NonNull);
            assert(fields[i].0 == k);
        }
    }
    assert forall|k: Seq<char>| assoc_keys(fields).contains(k) implies req.union(opt).contains(
        k,
    ) by {
        let i = choose|i: int| 0 <= i < fields.len() && (#[trigger] fields[i].0) == k;
        if fields[i].1 is NonNull {
            assert(req.contains(k));
        } else {
            assert(opt.contains(k));
        }
    }
    assert(req.union(opt) =~= assoc_keys(fields));
}

/// Law: the builder never places a wrapper or a bare reference at
/// the top level of the named-type list: every node it builds is one
/// of the named variants.
pub proof fn lemma_built_nodes_named(d: TypeDescModel)
    ensures
        spec_build_type(d) matches Ok(t) ==> is_named(t),
{
}

/// Law: translation is a pure function of the IR node: translating
/// equal nodes yields equal fragments, with no hidden ordering
/// nondeterminism in the resulting property lists.
pub proof fn lemma_translate_deterministic(a: TyModel, b: TyModel)
    requires
        a == b,
    ensures
        spec_translate(a) == spec_translate(b),
{
}

/// Law: an interface translates to the permissive empty fragment
/// regardless of what its possible-types list holds, and a union
/// likewise.
pub proof fn lemma_interface_union_permissive(
    name: Seq<char>,
    impls: Seq<TyModel>,
    types: Seq<TyModel>,
)
    ensures
        spec_translate(TyModel::Interface { name, impls }) == FragModel::Empty,
        spec_translate(TyModel::Union { name, types }) == FragModel::Empty,
{
}

} // verus!
