use vstd::prelude::*;

use crate::api::{arg_views, Field, Api, ConvertError, ConvertErrorWithContext, PodApi, TypeKind, UnanalyzedApi};
use crate::checker::{
    distinct_names, in_batch, pod_name, request_ok, ByValueChecker, KnownTypes,
};
use crate::config::IncludeCppConfig;
use crate::converter::{concrete_name, discovered, api_names, instantiation_decl, name_set, TypeConverter};
use crate::laws::lemma_instantiations_convert_nothing;
use crate::names::{seg_views, QualName};
use crate::pod::{
    analyze_enum, analyze_struct, enum_classified, extended, has_function_pointer,
    bases_of, fields_deps, fields_discovered, kind_for, struct_discovered, lemma_extended_refl, lemma_extended_trans, struct_classified, struct_failed,
};

verus! {

/// `output` is what the by-value analysis over the batch `apis` makes of `input`.
pub open spec fn classified(
    apis: Seq<UnanalyzedApi>,
    known: Seq<QualName>,
    input: UnanalyzedApi,
    output: PodApi,
) -> bool {
    match input {
        Api::Function { name } => output is Function && output->Function_name == name,
        Api::Typedef { name, target } => output is Typedef && output->Typedef_name == name
            && output->Typedef_target == target,
        Api::Struct { name, item, .. } => {
            let pod = pod_name(apis, known, name.name@);
            if pod && has_function_pointer(item.fields@) {
                struct_failed(output, name)
            } else {
                struct_classified(output, name, item, pod)
            }
        },
        Api::Enum { name, item } => enum_classified(output, name, item),
        Api::IgnoredItem { name, err, ctx } => output is IgnoredItem && output->IgnoredItem_name
            == name && output->IgnoredItem_err == err && output->IgnoredItem_ctx == ctx,
    }
}

/// No struct of the batch has a field, so classifying it converts nothing.
pub open spec fn no_discovery_input(apis: Seq<UnanalyzedApi>) -> bool {
    forall|i: int|
        0 <= i < apis.len() && (#[trigger] apis[i]) is Struct ==> apis[i]->Struct_item.fields@.len()
            == 0
}

/// `out` is the analysed form of a declaration made for an instantiation
/// outside the batch `apis`: a top-level struct with no fields, bases or
/// dependencies, flat exactly when the checker's rule makes its name flat.
pub open spec fn instantiation_result(apis: Seq<UnanalyzedApi>, known: Seq<QualName>, out: PodApi) -> bool {
    &&& out is Struct
    &&& !in_batch(apis, out.spec_name())
    &&& !out->Struct_name.nested
    &&& out->Struct_item.fields@.len() == 0
    &&& out->Struct_item.attrs@.len() == 0
    &&& !out->Struct_item.has_lifecycle
    &&& !out->Struct_item.opaque
    &&& out->Struct_analysis.kind == kind_for(pod_name(apis, known, out.spec_name()), false)
    &&& name_set(out->Struct_analysis.bases@) == Set::<QualName>::empty()
    &&& name_set(out->Struct_analysis.field_deps@) == Set::<QualName>::empty()
}

/// The instantiations that classifying `a` brings to light.
pub open spec fn api_discovered(
    batch: Seq<UnanalyzedApi>,
    known: Seq<QualName>,
    declared: Seq<QualName>,
    emitted: Seq<QualName>,
    a: UnanalyzedApi,
) -> Seq<QualName> {
    match a {
        Api::Struct { name, item, .. } => struct_discovered(
            declared,
            emitted,
            item.fields@,
            pod_name(batch, known, name.name@),
        ),
        _ => Seq::empty(),
    }
}

/// The instantiations that classifying `apis` in order brings to light,
/// each once, given those `emitted` before.
pub open spec fn batch_discovered(
    batch: Seq<UnanalyzedApi>,
    known: Seq<QualName>,
    declared: Seq<QualName>,
    emitted: Seq<QualName>,
    apis: Seq<UnanalyzedApi>,
) -> Seq<QualName>
    decreases apis.len(),
{
    if apis.len() == 0 {
        Seq::empty()
    } else {
        let d = batch_discovered(batch, known, declared, emitted, apis.drop_last());
        d + api_discovered(batch, known, declared, emitted + d, apis.last())
    }
}

proof fn lemma_fields_discovered_distinct(
    known: Seq<QualName>,
    emitted: Seq<QualName>,
    fields: Seq<Field>,
)
    requires
        emitted.no_duplicates(),
    ensures
        (emitted + fields_discovered(known, emitted, fields)).no_duplicates(),
    decreases fields.len(),
{
    if fields.len() == 0 {
        assert(emitted + fields_discovered(known, emitted, fields) =~= emitted);
    } else {
        lemma_fields_discovered_distinct(known, emitted, fields.drop_last());
        let d = fields_discovered(known, emitted, fields.drop_last());
        let x = discovered(known, emitted + d, fields.last().ty@);
        assert(emitted + (d + x) =~= (emitted + d) + x);
        assert(emitted + (d + Seq::<QualName>::empty()) =~= emitted + d);
    }
}

proof fn lemma_batch_discovered_distinct(
    batch: Seq<UnanalyzedApi>,
    known: Seq<QualName>,
    declared: Seq<QualName>,
    emitted: Seq<QualName>,
    apis: Seq<UnanalyzedApi>,
)
    requires
        emitted.no_duplicates(),
    ensures
        (emitted + batch_discovered(batch, known, declared, emitted, apis)).no_duplicates(),
    decreases apis.len(),
{
    if apis.len() == 0 {
        assert(emitted + batch_discovered(batch, known, declared, emitted, apis) =~= emitted);
    } else {
        lemma_batch_discovered_distinct(batch, known, declared, emitted, apis.drop_last());
        let d = batch_discovered(batch, known, declared, emitted, apis.drop_last());
        let e = emitted + d;
        let x = api_discovered(batch, known, declared, e, apis.last());
        match apis.last() {
            Api::Struct { item, .. } => {
                lemma_fields_discovered_distinct(declared, e, item.fields@);
            },
            _ => {},
        }
        assert(e + Seq::<QualName>::empty() =~= e);
        assert(emitted + (d + x) =~= e + x);
    }
}

/// An undeclared instantiation among the fields, before any function
/// pointer, is emitted by the time the fields have been converted.
pub proof fn lemma_fields_discovered_covers(
    known: Seq<QualName>,
    emitted: Seq<QualName>,
    fields: Seq<Field>,
    j: int,
)
    requires
        0 <= j < fields.len(),
        fields[j].ty is Generic,
        !known.contains(concrete_name(fields[j].ty->Generic_0@, arg_views(fields[j].ty->Generic_1@))),
        !has_function_pointer(fields.take(j)),
    ensures
        (emitted + fields_discovered(known, emitted, fields)).contains(
            concrete_name(fields[j].ty->Generic_0@, arg_views(fields[j].ty->Generic_1@)),
        ),
    decreases fields.len(),
{
    let c = concrete_name(fields[j].ty->Generic_0@, arg_views(fields[j].ty->Generic_1@));
    let f = fields.drop_last();
    let d = fields_discovered(known, emitted, f);
    if fields.len() == j + 1 {
        assert(f =~= fields.take(j));
        let x = discovered(known, emitted + d, fields.last().ty@);
        assert(emitted + (d + x) =~= (emitted + d) + x);
        if (emitted + d).contains(c) {
            let k = choose|k: int| 0 <= k < (emitted + d).len() && (emitted + d)[k] == c;
            assert(((emitted + d) + x)[k] == c);
        } else {
            assert(x == seq![c]);
            assert(((emitted + d) + x)[(emitted + d).len() as int] == c);
        }
    } else {
        assert(f[j] == fields[j]);
        assert(f.take(j) =~= fields.take(j));
        lemma_fields_discovered_covers(known, emitted, f, j);
        let k = choose|k: int| 0 <= k < (emitted + d).len() && (emitted + d)[k] == c;
        if has_function_pointer(f) {
            assert(fields_discovered(known, emitted, fields) == d);
        } else {
            let x = discovered(known, emitted + d, fields.last().ty@);
            assert(emitted + (d + x) =~= (emitted + d) + x);
            assert(((emitted + d) + x)[k] == c);
        }
    }
}

/// An undeclared instantiation among the fields of a flat struct of the
/// batch, before any function pointer, is among those the batch brings to light.
pub proof fn lemma_batch_discovered_covers(
    batch: Seq<UnanalyzedApi>,
    known: Seq<QualName>,
    declared: Seq<QualName>,
    emitted: Seq<QualName>,
    apis: Seq<UnanalyzedApi>,
    i: int,
    j: int,
)
    requires
        0 <= i < apis.len(),
        apis[i] is Struct,
        pod_name(batch, known, apis[i].spec_name()),
        0 <= j < apis[i]->Struct_item.fields@.len(),
        apis[i]->Struct_item.fields@[j].ty is Generic,
        !declared.contains(
            concrete_name(
                apis[i]->Struct_item.fields@[j].ty->Generic_0@,
                arg_views(apis[i]->Struct_item.fields@[j].ty->Generic_1@),
            ),
        ),
        !has_function_pointer(apis[i]->Struct_item.fields@.take(j)),
    ensures
        (emitted + batch_discovered(batch, known, declared, emitted, apis)).contains(
            concrete_name(
                apis[i]->Struct_item.fields@[j].ty->Generic_0@,
                arg_views(apis[i]->Struct_item.fields@[j].ty->Generic_1@),
            ),
        ),
    decreases apis.len(),
{
    let fields = apis[i]->Struct_item.fields@;
    let c = concrete_name(fields[j].ty->Generic_0@, arg_views(fields[j].ty->Generic_1@));
    let f = apis.drop_last();
    let d = batch_discovered(batch, known, declared, emitted, f);
    let x = api_discovered(batch, known, declared, emitted + d, apis.last());
    assert(emitted + (d + x) =~= (emitted + d) + x);
    if apis.len() == i + 1 {
        lemma_fields_discovered_covers(declared, emitted + d, fields, j);
    } else {
        assert(f[i] == apis[i]);
        lemma_batch_discovered_covers(batch, known, declared, emitted, f, i, j);
        let k = choose|k: int| 0 <= k < (emitted + d).len() && (emitted + d)[k] == c;
        assert(((emitted + d) + x)[k] == c);
    }
}

/// `out` is what the by-value analysis makes of the batch `apis`: one result
/// per declaration, in order, then one per instantiation it brought to light,
/// in the order they came to light.
pub open spec fn pipeline_result(apis: Seq<UnanalyzedApi>, known: Seq<QualName>, out: Seq<PodApi>) -> bool {
    let found = batch_discovered(apis, known, api_names(apis), Seq::empty(), apis);
    &&& found.no_duplicates()
    &&& out.len() == apis.len() + found.len()
    &&& forall|i: int| 0 <= i < apis.len() ==> classified(apis, known, apis[i], #[trigger] out[i])
    &&& forall|k: int|
        0 <= k < found.len() ==> instantiation_result(apis, known, #[trigger] out[apis.len() + k])
            && out[apis.len() + k].spec_name() == found[k]
}

/// Classifies each declaration in turn, appending one result per declaration
/// to `results`. A failure is recorded against its declaration and the batch
/// goes on.
pub fn convert_apis(
    apis: Vec<UnanalyzedApi>,
    results: &mut Vec<PodApi>,
    byvalue_checker: &ByValueChecker,
    type_converter: &mut TypeConverter,
    extra_apis: &mut Vec<UnanalyzedApi>,
)
    requires
        byvalue_checker.wf(),
        old(type_converter).wf(),
    ensures
        final(type_converter).wf(),
        final(type_converter).known_view() == old(type_converter).known_view(),
        final(results)@.len() == old(results)@.len() + apis@.len(),
        final(results)@.subrange(0, old(results)@.len() as int) == old(results)@,
        forall|i: int|
            0 <= i < apis@.len() ==> classified(
                byvalue_checker.batch(),
                byvalue_checker.known_types(),
                apis@[i],
                #[trigger] final(results)@[old(results)@.len() + i],
            ),
        extended(
            old(extra_apis)@,
            final(extra_apis)@,
            old(type_converter).emitted_view(),
            final(type_converter).emitted_view(),
        ),
        no_discovery_input(apis@) ==> final(extra_apis)@ == old(extra_apis)@
            && final(type_converter).emitted_view() == old(type_converter).emitted_view(),
        final(type_converter).emitted_view() == old(type_converter).emitted_view()
            + batch_discovered(
            byvalue_checker.batch(),
            byvalue_checker.known_types(),
            old(type_converter).known_view(),
            old(type_converter).emitted_view(),
            apis@,
        ),
{
    let ghost all = apis@;
    let ghost r0 = results@;
    let ghost e0 = extra_apis@;
    let ghost n0 = type_converter.emitted_view();
    let ghost known0 = type_converter.known_view();
    let mut apis = apis;
    let total = apis.len();
    let mut done: usize = 0;
    proof {
        lemma_extended_refl(e0, n0);
        assert(all.take(0) =~= Seq::<UnanalyzedApi>::empty());
        assert(n0 + Seq::<QualName>::empty() =~= n0);
        assert(all.subrange(0, all.len() as int) =~= all);
        assert(results@.subrange(0, r0.len() as int) =~= r0);
    }
    while apis.len() > 0
        invariant
            byvalue_checker.wf(),
            type_converter.wf(),
            type_converter.known_view() == known0,
            known0 == old(type_converter).known_view(),
            n0 == old(type_converter).emitted_view(),
            e0 == old(extra_apis)@,
            r0 == old(results)@,
            done <= all.len(),
            all.len() == total,
            apis@ == all.subrange(done as int, all.len() as int),
            results@.len() == r0.len() + done,
            results@.subrange(0, r0.len() as int) == r0,
            forall|i: int|
                0 <= i < done ==> classified(
                    byvalue_checker.batch(),
                    byvalue_checker.known_types(),
                    all[i],
                    #[trigger] results@[r0.len() + i],
                ),
            extended(e0, extra_apis@, n0, type_converter.emitted_view()),
            no_discovery_input(all) ==> extra_apis@ == e0 && type_converter.emitted_view() == n0,
            type_converter.emitted_view() == n0 + batch_discovered(
                byvalue_checker.batch(),
                byvalue_checker.known_types(),
                known0,
                n0,
                all.take(done as int),
            ),
        decreases apis@.len(),
    {
        let api = apis.remove(0);
        assert(api == all[done as int]);
        let ghost em = type_converter.emitted_view();
        let ghost ex = extra_apis@;
        proof {
            lemma_extended_refl(ex, em);
            assert(em + Seq::<QualName>::empty() =~= em);
        }
        let out = match api {
            Api::Function { name } => Api::Function { name },
            Api::Typedef { name, target } => Api::Typedef { name, target },
            Api::Enum { name, item } => analyze_enum(name, item),
            Api::IgnoredItem { name, err, ctx } => Api::IgnoredItem { name, err, ctx },
            Api::Struct { name, item, .. } => {
                let name_copy = name.clone_api_name();
                match analyze_struct(byvalue_checker, type_converter, extra_apis, name, item) {
                    Ok(a) => a,
                    Err(e) => {
                        let ConvertErrorWithContext(err, ctx) = e;
                        Api::IgnoredItem { name: name_copy, err, ctx }
                    },
                }
            },
        };
        let ghost rb = results@;
        results.push(out);
        proof {
            lemma_extended_trans(e0, ex, extra_apis@, n0, em, type_converter.emitted_view());
            assert(done < all.len());
            assert(results@.subrange(0, r0.len() as int) =~= rb.subrange(0, r0.len() as int));
            assert forall|i: int| 0 <= i < done + 1 implies classified(
                byvalue_checker.batch(),
                byvalue_checker.known_types(),
                all[i],
                #[trigger] results@[r0.len() + i],
            ) by {
                if i < done {
                    assert(results@[r0.len() + i] == rb[r0.len() + i]);
                }
            }
            assert(apis@ =~= all.subrange(done as int + 1, all.len() as int));
            let t = all.take(done as int + 1);
            assert(t.drop_last() =~= all.take(done as int));
            assert(t.last() == all[done as int]);
            let d = batch_discovered(
                byvalue_checker.batch(),
                byvalue_checker.known_types(),
                known0,
                n0,
                all.take(done as int),
            );
            let a = api_discovered(byvalue_checker.batch(), byvalue_checker.known_types(), known0, n0 + d, all[done as int]);
            assert(type_converter.emitted_view() == em + a);
            assert(n0 + (d + a) =~= (n0 + d) + a);
        }
        done += 1;
    }
    assert(all.take(done as int) =~= all);
}

proof fn lemma_instantiation_result(
    apis: Seq<UnanalyzedApi>,
    known: Seq<QualName>,
    input: UnanalyzedApi,
    c: QualName,
    out: PodApi,
)
    requires
        instantiation_decl(input, c),
        !api_names(apis).contains(c),
        classified(apis, known, input, out),
    ensures
        instantiation_result(apis, known, out),
{
    if in_batch(apis, c) {
        let i = choose|i: int| 0 <= i < apis.len() && #[trigger] apis[i].spec_name() == c;
        assert(api_names(apis)[i] == c);
    }
    let fields = input->Struct_item.fields@;
    assert(bases_of(fields) =~= Set::<QualName>::empty());
    assert(fields_deps(fields) =~= Set::<QualName>::empty());
    assert(!has_function_pointer(fields));
    assert(seg_views(input->Struct_item.attrs@) =~= Seq::<Seq<char>>::empty());
    assert(seg_views(out->Struct_item.attrs@).len() == out->Struct_item.attrs@.len());
}

/// Runs the by-value analysis over a batch. The checker is built once over
/// the batch; every declaration is classified; the instantiations that this
/// brings to light are classified in a second pass, which by construction
/// brings nothing further to light.
pub fn analyze_pod_apis(
    apis: Vec<UnanalyzedApi>,
    config: &IncludeCppConfig,
    known: &KnownTypes,
) -> (r: Result<Vec<PodApi>, ConvertError>)
    requires
        distinct_names(apis@),
    ensures
        r is Err <==> exists|k: int|
            0 <= k < config.pod_requests@.len() && !request_ok(
                apis@,
                known@,
                #[trigger] config.pod_requests@[k]@,
            ),
        r matches Err(e) ==> e matches ConvertError::UnsafePodType(s) && exists|k: int|
            0 <= k < config.pod_requests@.len() && #[trigger] config.pod_requests@[k]@ == s@
                && !request_ok(apis@, known@, s@),
        r matches Ok(out) ==> pipeline_result(apis@, known@, out@),
{
    let byvalue_checker = match ByValueChecker::new_from_apis(&apis, config, known) {
        Ok(c) => c,
        Err(e) => {
            return Err(e);
        },
    };
    let ghost orig = apis@;
    let mut extra_apis: Vec<UnanalyzedApi> = Vec::new();
    let mut type_converter = TypeConverter::new(&apis);
    let mut results: Vec<PodApi> = Vec::new();
    convert_apis(apis, &mut results, &byvalue_checker, &mut type_converter, &mut extra_apis);
    let ghost first = extra_apis@;
    let ghost emitted = type_converter.emitted_view();
    let ghost r1 = results@;
    proof {
        lemma_instantiations_convert_nothing(first, emitted);
    }
    let mut more_extra_apis: Vec<UnanalyzedApi> = Vec::new();
    convert_apis(extra_apis, &mut results, &byvalue_checker, &mut type_converter, &mut more_extra_apis);
    assert(more_extra_apis@.len() == 0);
    proof {
        assert forall|i: int| 0 <= i < orig.len() implies classified(orig, known@, orig[i], #[trigger] results@[i]) by {
            assert(results@[i] == results@.subrange(0, r1.len() as int)[i]);
            assert(r1[i] == r1[0 + i]);
        }
        let found = batch_discovered(orig, known@, api_names(orig), Seq::empty(), orig);
        assert(emitted =~= found);
        lemma_batch_discovered_distinct(orig, known@, api_names(orig), Seq::empty(), orig);
        assert(Seq::<QualName>::empty() + found =~= found);
        assert forall|k: int| 0 <= k < found.len() implies instantiation_result(
            orig,
            known@,
            #[trigger] results@[orig.len() + k],
        ) && results@[orig.len() + k].spec_name() == found[k] by {
            assert(instantiation_decl(first[k], emitted[k]));
            assert(type_converter.known_view() == api_names(orig));
            assert(results@[r1.len() + k] == results@[orig.len() + k]);
            lemma_instantiation_result(orig, known@, first[k], emitted[k], results@[orig.len() + k]);
        }
    }
    Ok(results)
}

} // verus!
