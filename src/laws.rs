use vstd::prelude::*;

use crate::api::{Api, ConvertError, ErrorContext, PodApi, TypeKind, TypeRef, TypeV, UnanalyzedApi, Field};
use crate::checker::{
    flat_instantiation, inst_pod, type_ineligible,
    batch_index, distinct_names, in_batch, ineligible, name_bad, pod_name, type_bad,
};
use crate::converter::{instantiation_decl, type_deps, name_set};
use crate::names::{seg_views, QualName};
use crate::pipeline::{
    lemma_batch_discovered_covers,classified, no_discovery_input, pipeline_result, instantiation_result, batch_discovered};
use crate::converter::{api_names, concrete_name};
use crate::api::arg_views;
use crate::pod::{fields_deps, has_function_pointer};

verus! {

proof fn lemma_struct_pod_name(apis: Seq<UnanalyzedApi>, known: Seq<QualName>, i: int)
    requires
        distinct_names(apis),
        0 <= i < apis.len(),
        apis[i] is Struct,
    ensures
        in_batch(apis, apis[i].spec_name()),
        batch_index(apis, apis[i].spec_name()) == i,
        pod_name(apis, known, apis[i].spec_name()) == !ineligible(apis, known, apis[i].spec_name()),
{
    let q = apis[i].spec_name();
    assert(in_batch(apis, q));
    let k = batch_index(apis, q);
    assert(apis[k].spec_name() == q);
}

/// A struct of the batch that reaches no ineligible type through its fields,
/// at any depth, and carries no lifecycle or opacity flag, is classified flat
/// (given that none of its fields is a function pointer, which the converter
/// rejects).
pub proof fn lemma_eligible_struct_is_pod(
    apis: Seq<UnanalyzedApi>,
    known: Seq<QualName>,
    i: int,
    out: PodApi,
)
    requires
        distinct_names(apis),
        0 <= i < apis.len(),
        apis[i] is Struct,
        !ineligible(apis, known, apis[i].spec_name()),
        !has_function_pointer(apis[i]->Struct_item.fields@),
        classified(apis, known, apis[i], out),
    ensures
        out is Struct,
        out->Struct_analysis.kind == TypeKind::Pod,
{
    lemma_struct_pod_name(apis, known, i);
}

/// A struct with a field whose named type is ineligible is itself
/// ineligible, and is never classified flat. Since ineligibility follows
/// fields at any depth, so does this.
pub proof fn lemma_ineligible_field_not_pod(
    apis: Seq<UnanalyzedApi>,
    known: Seq<QualName>,
    i: int,
    j: int,
    out: PodApi,
)
    requires
        distinct_names(apis),
        0 <= i < apis.len(),
        apis[i] is Struct,
        0 <= j < apis[i]->Struct_item.fields@.len(),
        apis[i]->Struct_item.fields@[j].ty matches TypeRef::Named(q) && ineligible(apis, known, q@),
        classified(apis, known, apis[i], out),
    ensures
        ineligible(apis, known, apis[i].spec_name()),
        !(out is Struct && out->Struct_analysis.kind == TypeKind::Pod),
{
    lemma_struct_pod_name(apis, known, i);
    let fields = apis[i]->Struct_item.fields@;
    let q = fields[j].ty->Named_0;
    let n = choose|n: nat| name_bad(apis, known, q@, n);
    assert(type_bad(apis, known, fields[j].ty, n));
    assert(name_bad(apis, known, apis[i].spec_name(), n + 1));
}

/// The declarations made for instantiations have no fields, so classifying
/// them converts nothing and brings no further declaration to light.
pub proof fn lemma_instantiations_convert_nothing(extras: Seq<UnanalyzedApi>, names: Seq<QualName>)
    requires
        extras.len() == names.len(),
        forall|k: int| 0 <= k < extras.len() ==> instantiation_decl(#[trigger] extras[k], names[k]),
    ensures
        no_discovery_input(extras),
{
    assert forall|k: int| 0 <= k < extras.len() && (#[trigger] extras[k]) is Struct implies extras[k]->Struct_item.fields@.len()
        == 0 by {
        assert(instantiation_decl(extras[k], names[k]));
    }
}

/// The dependencies recorded for a flat struct are exactly the names met
/// while converting its field types: each comes from some field, and every
/// name a field's conversion meets is recorded.
pub proof fn lemma_field_deps_exact(
    apis: Seq<UnanalyzedApi>,
    known: Seq<QualName>,
    input: UnanalyzedApi,
    out: PodApi,
)
    requires
        input is Struct,
        classified(apis, known, input, out),
        out is Struct,
        out->Struct_analysis.kind == TypeKind::Pod,
    ensures
        forall|q: QualName|
            #[trigger] name_set(out->Struct_analysis.field_deps@).contains(q) <==> exists|j: int|
                0 <= j < input->Struct_item.fields@.len() && type_deps(
                    input->Struct_item.fields@[j].ty@,
                ).contains(q),
{
    let fields = input->Struct_item.fields@;
    assert(name_set(out->Struct_analysis.field_deps@) == fields_deps(fields));
}

/// Everything an analysed declaration says, with bases and dependencies as sets.
pub enum ResultV {
    Function { name: QualName, nested: bool },
    Typedef { name: QualName, nested: bool, target: TypeV },
    Struct {
        name: QualName,
        nested: bool,
        attrs: Seq<Seq<char>>,
        fields: Seq<Field>,
        has_lifecycle: bool,
        opaque: bool,
        kind: TypeKind,
        bases: Set<QualName>,
        field_deps: Set<QualName>,
    },
    Enum { name: QualName, nested: bool, attrs: Seq<Seq<char>>, variants: Seq<Seq<char>> },
    Ignored { name: QualName, nested: bool, err: ConvertError, ctx: Option<Seq<char>> },
}

pub open spec fn result_view(o: PodApi) -> ResultV {
    match o {
        Api::Function { name } => ResultV::Function { name: name.name@, nested: name.nested },
        Api::Typedef { name, target } => ResultV::Typedef {
            name: name.name@,
            nested: name.nested,
            target: target@,
        },
        Api::Struct { name, item, analysis } => ResultV::Struct {
            name: name.name@,
            nested: name.nested,
            attrs: seg_views(item.attrs@),
            fields: item.fields@,
            has_lifecycle: item.has_lifecycle,
            opaque: item.opaque,
            kind: analysis.kind,
            bases: name_set(analysis.bases@),
            field_deps: name_set(analysis.field_deps@),
        },
        Api::Enum { name, item } => ResultV::Enum {
            name: name.name@,
            nested: name.nested,
            attrs: seg_views(item.attrs@),
            variants: seg_views(item.variants@),
        },
        Api::IgnoredItem { name, err, ctx } => ResultV::Ignored {
            name: name.name@,
            nested: name.nested,
            err: err,
            ctx: match ctx {
                Some(ErrorContext::Item(id)) => Some(id@),
                None => None,
            },
        },
    }
}

proof fn lemma_classified_same(
    apis: Seq<UnanalyzedApi>,
    known: Seq<QualName>,
    input: UnanalyzedApi,
    o1: PodApi,
    o2: PodApi,
)
    requires
        classified(apis, known, input, o1),
        classified(apis, known, input, o2),
    ensures
        result_view(o1) == result_view(o2),
{
}

/// The analysis is a function of its inputs: any two results for one batch
/// and one set of known types agree on every declaration, field by field,
/// with bases and dependencies compared as sets.
pub proof fn lemma_pipeline_deterministic(
    apis: Seq<UnanalyzedApi>,
    known: Seq<QualName>,
    out1: Seq<PodApi>,
    out2: Seq<PodApi>,
)
    requires
        pipeline_result(apis, known, out1),
        pipeline_result(apis, known, out2),
    ensures
        out1.len() == out2.len(),
        forall|i: int| 0 <= i < out1.len() ==> result_view(#[trigger] out1[i]) == result_view(out2[i]),
{
    let found = batch_discovered(apis, known, api_names(apis), Seq::empty(), apis);
    assert forall|i: int| 0 <= i < out1.len() implies result_view(#[trigger] out1[i]) == result_view(
        out2[i],
    ) by {
        if i < apis.len() {
            lemma_classified_same(apis, known, apis[i], out1[i], out2[i]);
        } else {
            let k = i - apis.len();
            assert(instantiation_result(apis, known, out1[apis.len() + k]));
            assert(instantiation_result(apis, known, out2[apis.len() + k]));
            let a = out1[i];
            let b = out2[i];
            assert(seg_views(a->Struct_item.attrs@) =~= seg_views(b->Struct_item.attrs@));
            assert(a->Struct_item.fields@ =~= b->Struct_item.fields@);
        }
    }
}

/// A struct classified flat holds only flat instantiations: the checker
/// answers flat for the name of every instantiation among its field types
/// that the batch does not declare, which is the name the converter gives
/// the declaration it makes for it.
pub proof fn lemma_flat_holder_flat_instantiation(
    apis: Seq<UnanalyzedApi>,
    known: Seq<QualName>,
    i: int,
    j: int,
)
    requires
        distinct_names(apis),
        0 <= i < apis.len(),
        apis[i] is Struct,
        pod_name(apis, known, apis[i].spec_name()),
        0 <= j < apis[i]->Struct_item.fields@.len(),
        apis[i]->Struct_item.fields@[j].ty matches TypeRef::Generic(tm, args) && !in_batch(
            apis,
            concrete_name(tm@, arg_views(args@)),
        ),
    ensures
        ({
            let t = apis[i]->Struct_item.fields@[j].ty;
            pod_name(apis, known, concrete_name(t->Generic_0@, arg_views(t->Generic_1@)))
        }),
{
    lemma_struct_pod_name(apis, known, i);
    let t = apis[i]->Struct_item.fields@[j].ty;
    let c = concrete_name(t->Generic_0@, arg_views(t->Generic_1@));
    if type_ineligible(apis, known, t) {
        let n = choose|n: nat| type_bad(apis, known, t, n);
        assert(name_bad(apis, known, apis[i].spec_name(), n + 1));
    }
    assert(flat_instantiation(apis, known, apis[i]->Struct_item.fields@[j].ty, c));
    assert(inst_pod(apis, known, c));
}

/// A flat struct of the batch with a field of an instantiation that the batch
/// does not declare (before any function pointer among its fields): the
/// result holds exactly one declaration for that instantiation, after all
/// the batch's own results, and classifies it flat.
pub proof fn lemma_instantiation_declared_once(
    apis: Seq<UnanalyzedApi>,
    known: Seq<QualName>,
    out: Seq<PodApi>,
    i: int,
    j: int,
)
    requires
        distinct_names(apis),
        pipeline_result(apis, known, out),
        0 <= i < apis.len(),
        apis[i] is Struct,
        pod_name(apis, known, apis[i].spec_name()),
        0 <= j < apis[i]->Struct_item.fields@.len(),
        apis[i]->Struct_item.fields@[j].ty matches TypeRef::Generic(tm, args) && !in_batch(
            apis,
            concrete_name(tm@, arg_views(args@)),
        ),
        !has_function_pointer(apis[i]->Struct_item.fields@.take(j)),
    ensures
        ({
            let t = apis[i]->Struct_item.fields@[j].ty;
            let c = concrete_name(t->Generic_0@, arg_views(t->Generic_1@));
            &&& exists|k: int|
                apis.len() <= k < out.len() && #[trigger] out[k].spec_name() == c
                    && instantiation_result(apis, known, out[k]) && out[k]->Struct_analysis.kind
                    == TypeKind::Pod
            &&& forall|k1: int, k2: int|
                apis.len() <= k1 < out.len() && apis.len() <= k2 < out.len()
                    && #[trigger] out[k1].spec_name() == c && #[trigger] out[k2].spec_name() == c
                    ==> k1 == k2
        }),
{
    let t = apis[i]->Struct_item.fields@[j].ty;
    let c = concrete_name(t->Generic_0@, arg_views(t->Generic_1@));
    let found = batch_discovered(apis, known, api_names(apis), Seq::empty(), apis);
    if api_names(apis).contains(c) {
        let m = choose|m: int| 0 <= m < api_names(apis).len() && api_names(apis)[m] == c;
        assert(apis[m].spec_name() == c);
    }
    lemma_batch_discovered_covers(apis, known, api_names(apis), Seq::empty(), apis, i, j);
    assert(Seq::<QualName>::empty() + found =~= found);
    let k = choose|k: int| 0 <= k < found.len() && found[k] == c;
    assert(instantiation_result(apis, known, out[apis.len() + k]));
    lemma_flat_holder_flat_instantiation(apis, known, i, j);
    assert(out[apis.len() + k].spec_name() == c);
    assert forall|k1: int, k2: int|
        apis.len() <= k1 < out.len() && apis.len() <= k2 < out.len() && #[trigger] out[k1].spec_name()
            == c && #[trigger] out[k2].spec_name() == c implies k1 == k2 by {
        assert(out[apis.len() + (k1 - apis.len())].spec_name() == found[k1 - apis.len()]);
        assert(out[apis.len() + (k2 - apis.len())].spec_name() == found[k2 - apis.len()]);
    }
}

} // verus!
