use vstd::prelude::*;

use crate::assoc::{assoc_update, lemma_assoc_update_absent, lemma_assoc_update_at,
    lemma_assoc_update_unique, unique_keys};
use crate::builder::{build_schema, spec_build_schema};
use crate::input::{document_view, DocumentModel, IntrospectionDocument, SchemaError,
    strings_view};
use crate::ir::{GraphQLType, is_named, lemma_tys_view, lemma_ty_fields_view, name_of, ty_name,
    ty_fields_view, ty_view, TyModel, tys_view};

verus! {

/// The primitive value classes of the target definition language
/// that scalar translation produces.
#[derive(Clone, Copy, Debug, PartialEq, Eq, Structural)]
pub enum PrimType {
    Int32,
    Float64,
    Boolean,
    Str,
}

/// One output schema fragment: a form of the target definition
/// language.  A `Properties` fragment is closed: a validated object
/// may carry no members beyond the required and optional ones.
#[derive(Debug, PartialEq, Eq)]
pub enum Fragment {
    Empty,
    Prim(PrimType),
    Enum(Vec<String>),
    Elements(Box<Fragment>),
    Properties { required: Vec<(String, Fragment)>, optional: Vec<(String, Fragment)> },
    Ref(String),
}

/// Mathematical model of a fragment.
pub enum FragModel {
    Empty,
    Prim(PrimType),
    Enum(Seq<Seq<char>>),
    Elements(Box<FragModel>),
    Properties { required: Seq<(Seq<char>, FragModel)>, optional: Seq<(Seq<char>, FragModel)> },
    Ref(Seq<char>),
}

pub open spec fn frag_view(f: Fragment) -> FragModel
    decreases f, 0int,
{
    match f {
        Fragment::Empty => FragModel::Empty,
        Fragment::Prim(p) => FragModel::Prim(p),
        Fragment::Enum(vs) => FragModel::Enum(strings_view(vs)),
        Fragment::Elements(inner) => FragModel::Elements(Box::new(frag_view(*inner))),
        Fragment::Properties { required, optional } => FragModel::Properties {
            required: fprops_view(required, required.len() as int),
            optional: fprops_view(optional, optional.len() as int),
        },
        Fragment::Ref(n) => FragModel::Ref(n@),
    }
}

/// Model of the first `n` entries of a fragment property list.
pub open spec fn fprops_view(fs: Vec<(String, Fragment)>, n: int) -> Seq<(Seq<char>, FragModel)>
    decreases fs, n,
{
    if n <= 0 || n > fs.len() {
        Seq::empty()
    } else {
        fprops_view(fs, n - 1).push((fs[n - 1].0@, frag_view(fs[n - 1].1)))
    }
}

pub proof fn lemma_fprops_view(fs: Vec<(String, Fragment)>, n: int)
    requires
        0 <= n <= fs.len(),
    ensures
        fprops_view(fs, n).len() == n,
        forall|i: int| 0 <= i < n ==> fprops_view(fs, n)[i] == (fs[i].0@, frag_view(fs[i].1)),
    decreases n,
{
    if n > 0 {
        lemma_fprops_view(fs, n - 1);
    }
}

/// Whether translation is defined on a node.  A bare `NonNull`
/// wrapper has no fragment of its own: it may only stand directly
/// under a field (where it marks the field required) or directly
/// under a `List` (where it marks the items non-null).
pub open spec fn translatable(t: TyModel) -> bool
    decreases t, 0int,
{
    match t {
        TyModel::NonNull(_) => false,
        TyModel::Object { fields, .. } => translatable_fields(fields, fields.len() as int),
        TyModel::Input { fields, .. } => translatable_fields(fields, fields.len() as int),
        TyModel::List(inner) => match *inner {
            TyModel::NonNull(item) => translatable(*item),
            _ => true,
        },
        _ => true,
    }
}

/// Whether translation is defined on the first `n` fields: a field
/// sheds one `NonNull` wrapper before its type is translated.
pub open spec fn translatable_fields(fs: Seq<(Seq<char>, TyModel)>, n: int) -> bool
    decreases fs, n,
{
    if n <= 0 || n > fs.len() {
        true
    } else {
        translatable_fields(fs, n - 1) && match fs[n - 1].1 {
            TyModel::NonNull(inner) => translatable(*inner),
            f => translatable(f),
        }
    }
}

/// Translatability of a field prefix is closed under shortening.
pub proof fn lemma_translatable_fields_mono(fs: Seq<(Seq<char>, TyModel)>, k: int, n: int)
    requires
        0 <= k <= n <= fs.len(),
    ensures
        translatable_fields(fs, n) ==> translatable_fields(fs, k),
    decreases n,
{
    if n > k {
        lemma_translatable_fields_mono(fs, k, n - 1);
    }
}

/// What translating one IR node yields, per variant: a deferred
/// reference, the fixed scalar table, a closed properties form with
/// the fields split by requiredness, a list form, the permissive
/// empty form for interfaces and unions, or an enumeration with its
/// values deduplicated.
pub open spec fn spec_translate(t: TyModel) -> FragModel
    decreases t, 1int,
{
    match t {
        TyModel::Ref(n) => FragModel::Ref(n),
        TyModel::Scalar(n) => {
            if n == "Int"@ {
                FragModel::Prim(PrimType::Int32)
            } else if n == "Float"@ {
                FragModel::Prim(PrimType::Float64)
            } else if n == "Boolean"@ {
                FragModel::Prim(PrimType::Boolean)
            } else if n == "String"@ || n == "ID"@ {
                FragModel::Prim(PrimType::Str)
            } else {
                FragModel::Empty
            }
        },
        TyModel::Object { fields, .. } => FragModel::Properties {
            required: spec_req_props(fields, fields.len() as int),
            optional: spec_opt_props(fields, fields.len() as int),
        },
        TyModel::Input { fields, .. } => FragModel::Properties {
            required: spec_req_props(fields, fields.len() as int),
            optional: spec_opt_props(fields, fields.len() as int),
        },
        TyModel::List(inner) => match *inner {
            TyModel::NonNull(item) => FragModel::Elements(Box::new(spec_translate(*item))),
            _ => FragModel::Elements(Box::new(FragModel::Empty)),
        },
        TyModel::Interface { .. } => FragModel::Empty,
        TyModel::Union { .. } => FragModel::Empty,
        TyModel::Enum { values, .. } => FragModel::Enum(spec_dedup(values)),
        TyModel::NonNull(_) => FragModel::Empty,
    }
}

/// The required half of a properties form: the fields of the first
/// `n` whose type is wrapped in `NonNull`, with the wrapper shed.
pub open spec fn spec_req_props(fs: Seq<(Seq<char>, TyModel)>, n: int) -> Seq<(
    Seq<char>,
    FragModel,
)>
    decreases fs, n, 0int,
{
    if n <= 0 || n > fs.len() {
        Seq::empty()
    } else {
        match fs[n - 1].1 {
            TyModel::NonNull(inner) => spec_req_props(fs, n - 1).push(
                (fs[n - 1].0, spec_translate(*inner)),
            ),
            _ => spec_req_props(fs, n - 1),
        }
    }
}

/// The optional half of a properties form: every field of the first
/// `n` not wrapped in `NonNull`, translated as it stands.
pub open spec fn spec_opt_props(fs: Seq<(Seq<char>, TyModel)>, n: int) -> Seq<(
    Seq<char>,
    FragModel,
)>
    decreases fs, n, 0int,
{
    if n <= 0 || n > fs.len() {
        Seq::empty()
    } else {
        match fs[n - 1].1 {
            TyModel::NonNull(_) => spec_opt_props(fs, n - 1),
            f => spec_opt_props(fs, n - 1).push((fs[n - 1].0, spec_translate(f))),
        }
    }
}

/// An enumeration's value list with duplicates dropped, keeping each
/// value's first occurrence.
pub open spec fn spec_dedup(s: Seq<Seq<char>>) -> Seq<Seq<char>>
    decreases s.len(),
{
    if s.len() == 0 {
        s
    } else {
        let prev = spec_dedup(s.drop_last());
        if prev.contains(s.last()) {
            prev
        } else {
            prev.push(s.last())
        }
    }
}

/// Whether a name occurs among the values kept so far.
fn contains_string(vs: &Vec<String>, s: &String) -> (r: bool)
    ensures
        r == strings_view(*vs).contains(s@),
{
    let mut i: usize = 0;
    while i < vs.len()
        invariant
            i <= vs@.len(),
            forall|j: int| 0 <= j < i ==> (#[trigger] strings_view(*vs)[j]) != s@,
        decreases vs@.len() - i,
    {
        if vs[i] == *s {
            assert(strings_view(*vs)[i as int] == s@);
            return true;
        }
        assert(strings_view(*vs)[i as int] != s@);
        i += 1;
    }
    assert(!strings_view(*vs).contains(s@));
    false
}

/// Copies a value list, dropping every repeated value.
fn dedup_strings(vs: &Vec<String>) -> (r: Vec<String>)
    ensures
        strings_view(r) == spec_dedup(strings_view(*vs)),
{
    let ghost sv = strings_view(*vs);
    let mut r: Vec<String> = Vec::new();
    proof {
        assert(sv.take(0) =~= Seq::<Seq<char>>::empty());
        assert(strings_view(r) =~= Seq::<Seq<char>>::empty());
    }
    let mut i: usize = 0;
    while i < vs.len()
        invariant
            sv == strings_view(*vs),
            sv.len() == vs@.len(),
            i <= vs@.len(),
            strings_view(r) == spec_dedup(sv.take(i as int)),
        decreases vs@.len() - i,
    {
        let ghost iv = i as int;
        let ghost cur = strings_view(r);
        proof {
            assert(sv.take(iv + 1).drop_last() =~= sv.take(iv));
            assert(sv.take(iv + 1).last() == sv[iv]);
            assert(sv[iv] == vs@[iv]@);
        }
        let v = &vs[i];
        if !contains_string(&r, v) {
            r.push(v.clone());
            proof {
                assert(strings_view(r) =~= cur.push(v@));
            }
        }
        i += 1;
    }
    proof {
        assert(sv.take(sv.len() as int) =~= sv);
    }
    r
}

/// Translates the fields of an object or input object into the two
/// halves of a closed properties form: a field wrapped in exactly one
/// `NonNull` becomes required with the wrapper shed, every other
/// field becomes optional.
fn translate_props(fields: &Vec<(String, GraphQLType)>) -> (res: Result<
    (Vec<(String, Fragment)>, Vec<(String, Fragment)>),
    SchemaError,
>)
    ensures
        ({
            let fm = ty_fields_view(*fields, fields@.len() as int);
            match res {
                Ok(ro) => translatable_fields(fm, fm.len() as int) && fprops_view(
                    ro.0,
                    ro.0@.len() as int,
                ) == spec_req_props(fm, fm.len() as int) && fprops_view(ro.1, ro.1@.len() as int)
                    == spec_opt_props(fm, fm.len() as int),
                Err(e) => !translatable_fields(fm, fm.len() as int) && e
                    == SchemaError::UnhandledShape,
            }
        }),
    decreases *fields, 0int,
{
    let ghost fm = ty_fields_view(*fields, fields@.len() as int);
    proof {
        lemma_ty_fields_view(*fields, fields@.len() as int);
    }
    let mut required: Vec<(String, Fragment)> = Vec::new();
    let mut optional: Vec<(String, Fragment)> = Vec::new();
    let mut i: usize = 0;
    while i < fields.len()
        invariant
            fm == ty_fields_view(*fields, fields@.len() as int),
            fm.len() == fields@.len(),
            forall|j: int|
                0 <= j < fm.len() ==> (#[trigger] fm[j]) == (
                    fields@[j].0@,
                    ty_view(fields@[j].1),
                ),
            i <= fields@.len(),
            translatable_fields(fm, i as int),
            fprops_view(required, required@.len() as int) == spec_req_props(fm, i as int),
            fprops_view(optional, optional@.len() as int) == spec_opt_props(fm, i as int),
        decreases fields@.len() - i,
    {
        let ghost iv = i as int;
        let pair = &fields[i];
        match &pair.1 {
            GraphQLType::NonNull(inner) => {
                let f = match translate(&**inner) {
                    Ok(f) => f,
                    Err(_) => {
                        proof {
                            lemma_translatable_fields_mono(fm, iv + 1, fm.len() as int);
                        }
                        return Err(SchemaError::UnhandledShape);
                    },
                };
                let key = pair.0.clone();
                let ghost keyv = key@;
                let ghost fv = frag_view(f);
                let ghost cur = fprops_view(required, required@.len() as int);
                proof {
                    lemma_fprops_view(required, required@.len() as int);
                }
                required.push((key, f));
                proof {
                    lemma_fprops_view(required, required@.len() as int);
                    assert(fprops_view(required, required@.len() as int) =~= cur.push(
                        (keyv, fv),
                    ));
                }
            },
            sub => {
                let f = match translate(sub) {
                    Ok(f) => f,
                    Err(_) => {
                        proof {
                            lemma_translatable_fields_mono(fm, iv + 1, fm.len() as int);
                        }
                        return Err(SchemaError::UnhandledShape);
                    },
                };
                let key = pair.0.clone();
                let ghost keyv = key@;
                let ghost fv = frag_view(f);
                let ghost cur = fprops_view(optional, optional@.len() as int);
                proof {
                    lemma_fprops_view(optional, optional@.len() as int);
                }
                optional.push((key, f));
                proof {
                    lemma_fprops_view(optional, optional@.len() as int);
                    assert(fprops_view(optional, optional@.len() as int) =~= cur.push(
                        (keyv, fv),
                    ));
                }
            },
        }
        i += 1;
    }
    Ok((required, optional))
}

/// Translates one IR node into its output fragment, per the variant
/// table of [`spec_translate`]; a bare `NonNull` wrapper anywhere a
/// fragment is owed is an unhandled shape.
pub fn translate(t: &GraphQLType) -> (res: Result<Fragment, SchemaError>)
    ensures
        translatable(ty_view(*t)) ==> (res matches Ok(f) && frag_view(f) == spec_translate(
            ty_view(*t),
        )),
        !translatable(ty_view(*t)) ==> res == Err::<Fragment, SchemaError>(
            SchemaError::UnhandledShape,
        ),
    decreases *t, 1int,
{
    match t {
        GraphQLType::Ref(n) => Ok(Fragment::Ref(n.clone())),
        GraphQLType::Scalar(n) => {
            if *n == String::from_str("Int") {
                Ok(Fragment::Prim(PrimType::Int32))
            } else if *n == String::from_str("Float") {
                Ok(Fragment::Prim(PrimType::Float64))
            } else if *n == String::from_str("Boolean") {
                Ok(Fragment::Prim(PrimType::Boolean))
            } else if *n == String::from_str("String") {
                Ok(Fragment::Prim(PrimType::Str))
            } else if *n == String::from_str("ID") {
                Ok(Fragment::Prim(PrimType::Str))
            } else {
                Ok(Fragment::Empty)
            }
        },
        GraphQLType::Object { fields, .. } => match translate_props(fields) {
            Ok((required, optional)) => Ok(Fragment::Properties { required, optional }),
            Err(e) => Err(e),
        },
        GraphQLType::Input { fields, .. } => match translate_props(fields) {
            Ok((required, optional)) => Ok(Fragment::Properties { required, optional }),
            Err(e) => Err(e),
        },
        GraphQLType::List(inner) => {
            proof {
                reveal_with_fuel(ty_view, 3);
            }
            match &**inner {
                GraphQLType::NonNull(item) => match translate(&**item) {
                    Ok(f) => Ok(Fragment::Elements(Box::new(f))),
                    Err(e) => Err(e),
                },
                _ => Ok(Fragment::Elements(Box::new(Fragment::Empty))),
            }
        },
        GraphQLType::Interface { .. } => Ok(Fragment::Empty),
        GraphQLType::Union { .. } => Ok(Fragment::Empty),
        GraphQLType::Enum { values, .. } => Ok(Fragment::Enum(dedup_strings(values))),
        GraphQLType::NonNull(_) => Err(SchemaError::UnhandledShape),
    }
}

/// The finished output schema: the definitions mapping and the name
/// of the root query type that the top-level form refers to.
#[derive(Debug, PartialEq, Eq)]
pub struct SchemaOutput {
    pub definitions: Vec<(String, Fragment)>,
    pub root: String,
}

/// Mathematical model of the output schema.
pub struct OutModel {
    pub definitions: Seq<(Seq<char>, FragModel)>,
    pub root: Seq<char>,
}

pub open spec fn out_view(o: SchemaOutput) -> OutModel {
    OutModel {
        definitions: fprops_view(o.definitions, o.definitions.len() as int),
        root: o.root@,
    }
}

/// Inserts a definition under its type name with last-write-wins
/// semantics: a later type of the same name overwrites the earlier
/// entry in place.
fn defs_insert(m: &mut Vec<(String, Fragment)>, key: String, val: Fragment)
    ensures
        fprops_view(*final(m), final(m)@.len() as int) == assoc_update(
            fprops_view(*old(m), old(m)@.len() as int),
            key@,
            frag_view(val),
        ),
{
    let ghost s0 = fprops_view(*old(m), old(m)@.len() as int);
    let ghost keyv = key@;
    let ghost valv = frag_view(val);
    proof {
        lemma_fprops_view(*old(m), old(m)@.len() as int);
    }
    let mut i: usize = 0;
    while i < m.len()
        invariant
            *m == *old(m),
            keyv == key@,
            valv == frag_view(val),
            s0 == fprops_view(*old(m), old(m)@.len() as int),
            s0.len() == old(m)@.len(),
            i <= old(m)@.len(),
            forall|j: int| 0 <= j < i ==> (#[trigger] s0[j].0) != key@,
            forall|j: int|
                0 <= j < s0.len() ==> s0[j] == (old(m)@[j].0@, frag_view(old(m)@[j].1)),
        decreases old(m)@.len() - i,
    {
        if m[i].0 == key {
            let ghost iv = i as int;
            m.set(i, (key, val));
            proof {
                lemma_assoc_update_at(s0, keyv, valv, iv);
                lemma_fprops_view(*m, m@.len() as int);
                assert(fprops_view(*m, m@.len() as int) =~= s0.update(iv, (keyv, valv)));
            }
            return ;
        }
        i += 1;
    }
    m.push((key, val));
    proof {
        lemma_assoc_update_absent(s0, keyv, valv);
        lemma_fprops_view(*m, m@.len() as int);
        assert(fprops_view(*m, m@.len() as int) =~= s0.push((keyv, valv)));
    }
}

/// What translating the built node list into the definitions mapping
/// yields: each node's fragment inserted under the node's name in
/// order, with a later duplicate name overwriting the earlier entry;
/// a node outside the named, translatable shapes aborts the run.
pub open spec fn spec_defs(ns: Seq<TyModel>, acc: Seq<(Seq<char>, FragModel)>) -> Result<
    Seq<(Seq<char>, FragModel)>,
    SchemaError,
>
    decreases ns.len(),
{
    if ns.len() == 0 {
        Ok(acc)
    } else if !is_named(ns[0]) {
        Err(SchemaError::UnhandledShape)
    } else if !translatable(ns[0]) {
        Err(SchemaError::UnhandledShape)
    } else {
        spec_defs(ns.drop_first(), assoc_update(acc, ty_name(ns[0]), spec_translate(ns[0])))
    }
}

/// The tail of document translation once the node list is built:
/// the definitions mapping paired with the root reference, or the
/// first error of the per-node pass.
pub open spec fn spec_defs_result(ns: Seq<TyModel>, root: Seq<char>) -> Result<
    OutModel,
    SchemaError,
> {
    match spec_defs(ns, Seq::empty()) {
        Ok(defs) => Ok(OutModel { definitions: defs, root }),
        Err(e) => Err(e),
    }
}

/// What translating a whole introspection document yields: the
/// envelope must carry `data`, `data.schema` and the root query
/// type's name, the descriptor list must build, and every built node
/// must translate; then the output pairs the definitions mapping with
/// a reference to the root type's name.
pub open spec fn spec_translate_document(d: DocumentModel) -> Result<OutModel, SchemaError> {
    match d.schema {
        None => Err(SchemaError::MalformedEnvelope),
        Some(None) => Err(SchemaError::MalformedEnvelope),
        Some(Some(sd)) => match sd.query_type_name {
            None => Err(SchemaError::MalformedEnvelope),
            Some(root) => match spec_build_schema(sd.types, Seq::empty()) {
                Ok(nodes) => match spec_defs(nodes, Seq::empty()) {
                    Ok(defs) => Ok(OutModel { definitions: defs, root }),
                    Err(e) => Err(e),
                },
                Err(e) => Err(e),
            },
        },
    }
}

/// Translates a whole introspection document into the output schema.
/// Fails with `MalformedEnvelope` when `data`, `data.schema` or the
/// root query type's name is missing, and otherwise exactly as the
/// builder and per-node translation do; no partial schema is ever
/// returned.
pub fn translate_document(doc: &IntrospectionDocument) -> (res: Result<SchemaOutput, SchemaError>)
    ensures
        match res {
            Ok(out) => spec_translate_document(document_view(*doc)) == Ok::<
                OutModel,
                SchemaError,
            >(out_view(out)) && unique_keys(out_view(out).definitions),
            Err(e) => spec_translate_document(document_view(*doc)) == Err::<
                OutModel,
                SchemaError,
            >(e),
        },
{
    let dd = match &doc.data {
        Some(dd) => dd,
        None => {
            return Err(SchemaError::MalformedEnvelope);
        },
    };
    let sd = match &dd.schema {
        Some(sd) => sd,
        None => {
            return Err(SchemaError::MalformedEnvelope);
        },
    };
    let root = match &sd.query_type_name {
        Some(r) => r,
        None => {
            return Err(SchemaError::MalformedEnvelope);
        },
    };
    let nodes = match build_schema(&sd.types) {
        Ok(ns) => ns,
        Err(e) => {
            return Err(e);
        },
    };
    let ghost nsm = tys_view(nodes, nodes@.len() as int);
    let mut defs: Vec<(String, Fragment)> = Vec::new();
    proof {
        assert(nsm.skip(0) =~= nsm);
        lemma_tys_view(nodes, nodes@.len() as int);
    }
    let mut i: usize = 0;
    while i < nodes.len()
        invariant
            spec_translate_document(document_view(*doc)) == spec_defs_result(nsm, root@),
            nsm == tys_view(nodes, nodes@.len() as int),
            nsm.len() == nodes@.len(),
            forall|j: int| 0 <= j < nsm.len() ==> (#[trigger] nsm[j]) == ty_view(nodes@[j]),
            i <= nodes@.len(),
            spec_defs(nsm, Seq::empty()) == spec_defs(
                nsm.skip(i as int),
                fprops_view(defs, defs@.len() as int),
            ),
            unique_keys(fprops_view(defs, defs@.len() as int)),
        decreases nodes@.len() - i,
    {
        let ghost iv = i as int;
        let ghost cur = fprops_view(defs, defs@.len() as int);
        proof {
            assert(nsm.skip(iv)[0] == nsm[iv]);
            assert(nsm.skip(iv).drop_first() =~= nsm.skip(iv + 1));
        }
        let node = &nodes[i];
        let nm = match name_of(node) {
            Some(nm) => nm,
            None => {
                return Err(SchemaError::UnhandledShape);
            },
        };
        let frag = match translate(node) {
            Ok(f) => f,
            Err(_) => {
                return Err(SchemaError::UnhandledShape);
            },
        };
        let ghost nmv = nm@;
        let ghost fv = frag_view(frag);
        defs_insert(&mut defs, nm, frag);
        proof {
            lemma_assoc_update_unique(cur, nmv, fv);
        }
        i += 1;
    }
    proof {
        assert(nsm.skip(nsm.len() as int) =~= Seq::<TyModel>::empty());
    }
    Ok(SchemaOutput { definitions: defs, root: root.clone() })
}

} // verus!
