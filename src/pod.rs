use vstd::prelude::*;

use crate::api::{
    Api, ApiName, ConvertError, ConvertErrorWithContext, EnumItem, ErrorContext, Field, PodAnalysis,
    PodApi, StructItem, TypeKind, TypeRef, UnanalyzedApi,
};
use crate::checker::{pod_name, ByValueChecker};
use crate::converter::{
    discovered, instantiation_decl, lemma_name_set_push, name_set, type_deps, TypeConverter,
};
use crate::checker::contains_name;
use crate::names::{clone_string, seg_views, QualName, QualifiedName};

verus! {

pub open spec fn starts_with(s: Seq<char>, p: Seq<char>) -> bool {
    p.len() <= s.len() && s.take(p.len() as int) == p
}

/// Attributes that only record how the parsing stage saw a declaration.
pub open spec fn is_marker_attr(a: Seq<char>) -> bool {
    starts_with(a, seq!['b', 'i', 'n', 'd', 'g', 'e', 'n', '_'])
}

/// The attributes that remain once the parsing markers are gone, in order.
pub open spec fn strip_markers(attrs: Seq<Seq<char>>) -> Seq<Seq<char>>
    decreases attrs.len(),
{
    if attrs.len() == 0 {
        Seq::empty()
    } else {
        let rest = strip_markers(attrs.drop_last());
        if is_marker_attr(attrs.last()) {
            rest
        } else {
            rest.push(attrs.last())
        }
    }
}

/// Fields whose identifier starts with this mark hold a base class.
pub open spec fn base_mark() -> Seq<char> {
    seq!['_', 'b', 'a', 's', 'e']
}

/// The base class that a field stands for, if it is a base slot.
pub open spec fn field_base(f: Field) -> Option<QualName> {
    if starts_with(f.ident@, base_mark()) {
        match f.ty {
            TypeRef::Named(q) => Some(q@),
            TypeRef::Generic(tm, _) => Some(tm@),
            _ => None,
        }
    } else {
        None
    }
}

pub open spec fn bases_of(fields: Seq<Field>) -> Set<QualName> {
    Set::new(|q: QualName| exists|j: int| 0 <= j < fields.len() && #[trigger] field_base(fields[j]) == Some(q))
}

/// Whether `s` begins with `p`.
pub fn has_prefix(s: &String, p: &str) -> (r: bool)
    ensures
        r == starts_with(s@, p@),
{
    let st = s.as_str();
    let n = st.unicode_len();
    let m = p.unicode_len();
    if m > n {
        return false;
    }
    let mut i: usize = 0;
    while i < m
        invariant
            m == p@.len(),
            n == s@.len(),
            m <= n,
            i <= m,
            st@ == s@,
            s@.take(i as int) =~= p@.take(i as int),
        decreases m - i,
    {
        if st.get_char(i) != p.get_char(i) {
            assert(s@.take(m as int)[i as int] != p@[i as int]);
            return false;
        }
        i += 1;
        assert(s@.take(i as int) =~= p@.take(i as int));
    }
    assert(p@.take(m as int) =~= p@);
    true
}

/// Removes the parsing stage's marker attributes, keeping the others in order.
pub fn remove_bindgen_attrs(attrs: &mut Vec<String>)
    ensures
        seg_views(final(attrs)@) == strip_markers(seg_views(old(attrs)@)),
{
    let mut kept: Vec<String> = Vec::new();
    let mut i: usize = 0;
    while i < attrs.len()
        invariant
            i <= attrs@.len(),
            seg_views(kept@) == strip_markers(seg_views(attrs@).take(i as int)),
        decreases attrs@.len() - i,
    {
        let ghost before = kept@;
        proof {
            let t = seg_views(attrs@).take(i as int + 1);
            assert(t.drop_last() =~= seg_views(attrs@).take(i as int));
            assert(t.last() == attrs@[i as int]@);
            reveal_strlit("bindgen_");
            assert("bindgen_"@ =~= seq!['b', 'i', 'n', 'd', 'g', 'e', 'n', '_']);
        }
        if !has_prefix(&attrs[i], "bindgen_") {
            kept.push(clone_string(&attrs[i]));
            proof {
                assert(seg_views(kept@) =~= seg_views(before).push(attrs@[i as int]@));
            }
        }
        i += 1;
    }
    assert(seg_views(attrs@).take(i as int) =~= seg_views(attrs@));
    *attrs = kept;
}

/// The base classes of a struct: the types of its base-slot fields.
pub fn get_bases(item: &StructItem) -> (r: Vec<QualifiedName>)
    ensures
        name_set(r@) == bases_of(item.fields@),
{
    let mut bases: Vec<QualifiedName> = Vec::new();
    let mut j: usize = 0;
    while j < item.fields.len()
        invariant
            j <= item.fields@.len(),
            name_set(bases@) == bases_of(item.fields@.take(j as int)),
        decreases item.fields@.len() - j,
    {
        let ghost before = bases@;
        let f = &item.fields[j];
        let base = if has_prefix(&f.ident, "_base") {
            match &f.ty {
                TypeRef::Named(q) => Some(q.clone_name()),
                TypeRef::Generic(tm, _) => Some(tm.clone_name()),
                _ => None,
            }
        } else {
            None
        };
        proof {
            reveal_strlit("_base");
            assert("_base"@ =~= base_mark());
        }
        let ghost fb = field_base(item.fields@[j as int]);
        match base {
            Some(q) => {
                bases.push(q);
                proof {
                    crate::converter::lemma_name_set_push(before, bases@.last());
                    assert(bases@ == before.push(bases@.last()));
                }
            },
            None => {},
        }
        proof {
            let a = item.fields@.take(j as int);
            let b = item.fields@.take(j as int + 1);
            assert(b[j as int] == item.fields@[j as int]);
            assert forall|q: QualName| bases_of(b).contains(q) implies name_set(bases@).contains(q) by {
                let k = choose|k: int| 0 <= k < b.len() && #[trigger] field_base(b[k]) == Some(q);
                if k < j {
                    assert(field_base(a[k]) == Some(q));
                    assert(name_set(before).contains(q));
                }
            }
            assert forall|q: QualName| name_set(bases@).contains(q) implies bases_of(b).contains(q) by {
                if name_set(before).contains(q) {
                    let k = choose|k: int| 0 <= k < a.len() && #[trigger] field_base(a[k]) == Some(q);
                    assert(field_base(b[k]) == Some(q));
                } else {
                    assert(field_base(b[j as int]) == Some(q));
                }
            }
            assert(name_set(bases@) =~= bases_of(b));
        }
        j += 1;
    }
    assert(item.fields@.take(j as int) =~= item.fields@);
    bases
}

/// Every named type that the fields of a struct touch.
pub open spec fn fields_deps(fields: Seq<Field>) -> Set<QualName> {
    Set::new(
        |q: QualName|
            exists|j: int| 0 <= j < fields.len() && type_deps(#[trigger] fields[j].ty@).contains(q),
    )
}

pub open spec fn has_function_pointer(fields: Seq<Field>) -> bool {
    exists|j: int| 0 <= j < fields.len() && #[trigger] fields[j].ty is FunctionPointer
}

/// The instantiations that converting the fields in order brings to light.
/// Conversion stops at the first function pointer.
pub open spec fn fields_discovered(
    known: Seq<QualName>,
    emitted: Seq<QualName>,
    fields: Seq<Field>,
) -> Seq<QualName>
    decreases fields.len(),
{
    if fields.len() == 0 {
        Seq::empty()
    } else {
        let d = fields_discovered(known, emitted, fields.drop_last());
        if has_function_pointer(fields.drop_last()) {
            d
        } else {
            d + discovered(known, emitted + d, fields.last().ty@)
        }
    }
}

/// After a function pointer, further fields bring nothing to light.
proof fn lemma_discovered_stops(known: Seq<QualName>, emitted: Seq<QualName>, fields: Seq<Field>, j: int, k: int)
    requires
        0 <= j < k <= fields.len(),
        fields[j].ty is FunctionPointer,
        !has_function_pointer(fields.take(j)),
    ensures
        fields_discovered(known, emitted, fields.take(k)) == fields_discovered(known, emitted, fields.take(j)),
    decreases k - j,
{
    let t = fields.take(k);
    assert(t.drop_last() =~= fields.take(k - 1));
    if k - 1 > j {
        lemma_discovered_stops(known, emitted, fields, j, k - 1);
        assert(fields.take(k - 1)[j] == fields[j]);
        assert(has_function_pointer(fields.take(k - 1)));
    } else {
        let d = fields_discovered(known, emitted, fields.take(j));
        assert(t.last() == fields[j]);
        assert(d + Seq::<QualName>::empty() =~= d);
    }
}

/// The side list grew from `old_e` to `new_e` and the converter's emitted
/// names from `old_n` to `new_n`, one instantiation declaration per new name.
pub open spec fn extended(
    old_e: Seq<UnanalyzedApi>,
    new_e: Seq<UnanalyzedApi>,
    old_n: Seq<QualName>,
    new_n: Seq<QualName>,
) -> bool {
    &&& old_e.len() <= new_e.len()
    &&& old_n.len() <= new_n.len()
    &&& new_e.len() - old_e.len() == new_n.len() - old_n.len()
    &&& new_e.subrange(0, old_e.len() as int) == old_e
    &&& new_n.subrange(0, old_n.len() as int) == old_n
    &&& forall|k: int|
        old_e.len() <= k < new_e.len() ==> instantiation_decl(
            #[trigger] new_e[k],
            new_n[k - old_e.len() + old_n.len()],
        )
}

pub proof fn lemma_extended_refl(e: Seq<UnanalyzedApi>, n: Seq<QualName>)
    ensures
        extended(e, e, n, n),
{
    assert(e.subrange(0, e.len() as int) =~= e);
    assert(n.subrange(0, n.len() as int) =~= n);
}

proof fn lemma_extended_step(
    e0: Seq<UnanalyzedApi>,
    e1: Seq<UnanalyzedApi>,
    n0: Seq<QualName>,
    n1: Seq<QualName>,
    add_e: Seq<UnanalyzedApi>,
    add_n: Seq<QualName>,
)
    requires
        extended(e0, e1, n0, n1),
        add_e.len() == add_n.len(),
        forall|k: int| 0 <= k < add_n.len() ==> instantiation_decl(#[trigger] add_e[k], add_n[k]),
    ensures
        extended(e0, e1 + add_e, n0, n1 + add_n),
{
    let e2 = e1 + add_e;
    let n2 = n1 + add_n;
    assert(e2.subrange(0, e0.len() as int) =~= e1.subrange(0, e0.len() as int));
    assert(n2.subrange(0, n0.len() as int) =~= n1.subrange(0, n0.len() as int));
    assert forall|k: int| e0.len() <= k < e2.len() implies instantiation_decl(
        #[trigger] e2[k],
        n2[k - e0.len() + n0.len()],
    ) by {
        if k < e1.len() {
            assert(e2[k] == e1[k]);
        } else {
            assert(e2[k] == add_e[k - e1.len()]);
            assert(n2[k - e0.len() + n0.len()] == add_n[k - e1.len()]);
        }
    }
}

pub proof fn lemma_extended_trans(
    e0: Seq<UnanalyzedApi>,
    e1: Seq<UnanalyzedApi>,
    e2: Seq<UnanalyzedApi>,
    n0: Seq<QualName>,
    n1: Seq<QualName>,
    n2: Seq<QualName>,
)
    requires
        extended(e0, e1, n0, n1),
        extended(e1, e2, n1, n2),
    ensures
        extended(e0, e2, n0, n2),
{
    assert(e2.subrange(0, e0.len() as int) =~= e2.subrange(0, e1.len() as int).subrange(
        0,
        e0.len() as int,
    ));
    assert(n2.subrange(0, n0.len() as int) =~= n2.subrange(0, n1.len() as int).subrange(
        0,
        n0.len() as int,
    ));
    assert forall|k: int| e0.len() <= k < e2.len() implies instantiation_decl(
        #[trigger] e2[k],
        n2[k - e0.len() + n0.len()],
    ) by {
        if k < e1.len() {
            assert(e2[k] == e2.subrange(0, e1.len() as int)[k]);
            assert(n2[k - e0.len() + n0.len()] == n2.subrange(0, n1.len() as int)[k - e0.len()
                + n0.len()]);
        }
    }
}

/// Adds `q` to the set held in `v`, unless it is there already.
pub fn insert_name(v: &mut Vec<QualifiedName>, q: QualifiedName)
    ensures
        name_set(final(v)@) == name_set(old(v)@).insert(q@),
{
    if contains_name(v, &q) {
        proof {
            let i = choose|i: int| 0 <= i < old(v)@.len() && crate::checker::name_views(old(v)@)[i] == q@;
            assert(old(v)@[i]@ == q@);
            assert(name_set(old(v)@).insert(q@) =~= name_set(old(v)@));
        }
    } else {
        let ghost before = v@;
        v.push(q);
        proof {
            lemma_name_set_push(before, v@.last());
            assert(v@ == before.push(v@.last()));
        }
    }
}

/// Converts every field type of a struct, gathering the named types it
/// touches into `deps` and the declarations it brings to light into `extra_apis`.
pub fn get_struct_field_types(
    type_converter: &mut TypeConverter,
    item: &StructItem,
    deps: &mut Vec<QualifiedName>,
    extra_apis: &mut Vec<UnanalyzedApi>,
) -> (r: Result<(), ConvertError>)
    requires
        old(type_converter).wf(),
    ensures
        final(type_converter).wf(),
        final(type_converter).known_view() == old(type_converter).known_view(),
        extended(
            old(extra_apis)@,
            final(extra_apis)@,
            old(type_converter).emitted_view(),
            final(type_converter).emitted_view(),
        ),
        r is Err <==> has_function_pointer(item.fields@),
        r matches Err(e) ==> e is UnsupportedFunctionPointer,
        r is Err ==> exists|j: int|
            0 <= j < item.fields@.len() && #[trigger] item.fields@[j].ty is FunctionPointer
                && !has_function_pointer(item.fields@.take(j)) && name_set(final(deps)@)
                == name_set(old(deps)@).union(fields_deps(item.fields@.take(j))),
        r is Ok ==> name_set(final(deps)@) == name_set(old(deps)@).union(fields_deps(item.fields@)),
        final(type_converter).emitted_view() == old(type_converter).emitted_view()
            + fields_discovered(
            old(type_converter).known_view(),
            old(type_converter).emitted_view(),
            item.fields@,
        ),
        item.fields@.len() == 0 ==> final(extra_apis)@ == old(extra_apis)@
            && final(type_converter).emitted_view() == old(type_converter).emitted_view(),
{
    let ghost known0 = type_converter.known_view();
    let ghost n0 = type_converter.emitted_view();
    let ghost e0 = extra_apis@;
    let ghost d0 = deps@;
    let ghost fields = item.fields@;
    proof {
        lemma_extended_refl(e0, n0);
        assert(fields.take(0) =~= Seq::<Field>::empty());
        assert(n0 + Seq::<QualName>::empty() =~= n0);
        assert(fields_deps(fields.take(0)) =~= Set::<QualName>::empty());
        assert(name_set(d0).union(Set::<QualName>::empty()) =~= name_set(d0));
    }
    let mut j: usize = 0;
    while j < item.fields.len()
        invariant
            fields == item.fields@,
            type_converter.wf(),
            known0 == old(type_converter).known_view(),
            n0 == old(type_converter).emitted_view(),
            e0 == old(extra_apis)@,
            d0 == old(deps)@,
            j <= fields.len(),
            type_converter.known_view() == known0,
            extended(e0, extra_apis@, n0, type_converter.emitted_view()),
            type_converter.emitted_view() == n0 + fields_discovered(known0, n0, fields.take(j as int)),
            name_set(deps@) == name_set(d0).union(fields_deps(fields.take(j as int))),
            forall|m: int| 0 <= m < j ==> !(#[trigger] fields[m].ty is FunctionPointer),
            !has_function_pointer(fields.take(j as int)),
            fields.len() == 0 ==> extra_apis@ == e0 && type_converter.emitted_view() == n0,
        decreases fields.len() - j,
    {
        let ghost em = type_converter.emitted_view();
        let ghost ex = extra_apis@;
        let ghost dp = deps@;
        let converted = type_converter.convert_type(&item.fields[j].ty);
        let mut annotated = match converted {
            Ok(a) => a,
            Err(e) => {
                proof {
                    assert(type_converter.known_view() == known0);
                    assert(type_converter.emitted_view() == em);
                    assert(fields[j as int].ty is FunctionPointer);
                    assert(item.fields@[j as int].ty is FunctionPointer);
                    lemma_discovered_stops(known0, n0, fields, j as int, fields.len() as int);
                    assert(fields.take(fields.len() as int) =~= fields);
                    assert(extra_apis@ + Seq::<UnanalyzedApi>::empty() =~= extra_apis@);
                    assert(em + Seq::<QualName>::empty() =~= em);
                    lemma_extended_step(e0, ex, n0, em, Seq::empty(), Seq::empty());
                }
                return Err(e);
            },
        };
        proof {
            let found = discovered(known0, em, fields[j as int].ty@);
            lemma_extended_step(e0, ex, n0, em, annotated.extra_apis@, found);
            let t = fields.take(j as int + 1);
            assert(t.drop_last() =~= fields.take(j as int));
            assert(t.last() == fields[j as int]);
            let d = fields_discovered(known0, n0, fields.take(j as int));
            assert(em == n0 + d);
            assert(n0 + (d + found) =~= (n0 + d) + found);
            assert(!has_function_pointer(t.drop_last()));
            assert forall|m: int| 0 <= m < j + 1 implies !(#[trigger] t[m].ty is FunctionPointer) by {
                assert(t[m] == fields[m]);
            }
        }
        extra_apis.append(&mut annotated.extra_apis);
        let mut k: usize = 0;
        while k < annotated.types_encountered.len()
            invariant
                k <= annotated.types_encountered@.len(),
                name_set(deps@) == name_set(dp).union(
                    name_set(annotated.types_encountered@.take(k as int)),
                ),
            decreases annotated.types_encountered@.len() - k,
        {
            let ghost db = deps@;
            insert_name(deps, annotated.types_encountered[k].clone_name());
            proof {
                let te = annotated.types_encountered@;
                assert(te.take(k as int + 1) =~= te.take(k as int).push(te[k as int]));
                lemma_name_set_push(te.take(k as int), te[k as int]);
                assert(name_set(deps@) =~= name_set(dp).union(name_set(te.take(k as int + 1))));
            }
            k += 1;
        }
        proof {
            let te = annotated.types_encountered@;
            assert(te.take(k as int) =~= te);
            let a = fields.take(j as int);
            let b = fields.take(j as int + 1);
            assert forall|q: QualName| fields_deps(b).contains(q) implies fields_deps(a).union(
                type_deps(fields[j as int].ty@),
            ).contains(q) by {
                let m = choose|m: int| 0 <= m < b.len() && type_deps(#[trigger] b[m].ty@).contains(q);
                if m < j {
                    assert(a[m] == b[m]);
                }
            }
            assert forall|q: QualName| fields_deps(a).union(type_deps(fields[j as int].ty@)).contains(
                q,
            ) implies fields_deps(b).contains(q) by {
                if fields_deps(a).contains(q) {
                    let m = choose|m: int| 0 <= m < a.len() && type_deps(#[trigger] a[m].ty@).contains(q);
                    assert(a[m] == b[m]);
                } else {
                    assert(b[j as int] == fields[j as int]);
                }
            }
            assert(fields_deps(b) =~= fields_deps(a).union(type_deps(fields[j as int].ty@)));
            assert(name_set(deps@) =~= name_set(d0).union(fields_deps(b)));
        }
        j += 1;
    }
    proof {
        assert(fields.take(j as int) =~= fields);
    }
    Ok(())
}

pub open spec fn kind_for(pod: bool, nested: bool) -> TypeKind {
    if pod {
        TypeKind::Pod
    } else if nested {
        TypeKind::NonPodNested
    } else {
        TypeKind::NonPod
    }
}

/// `out` is the struct `name`/`item` after the analysis, decided `pod` or not.
pub open spec fn struct_classified(out: PodApi, name: ApiName, item: StructItem, pod: bool) -> bool {
    &&& out is Struct
    &&& out->Struct_name == name
    &&& out->Struct_item.fields == item.fields
    &&& out->Struct_item.has_lifecycle == item.has_lifecycle
    &&& out->Struct_item.opaque == item.opaque
    &&& seg_views(out->Struct_item.attrs@) == strip_markers(seg_views(item.attrs@))
    &&& out->Struct_analysis.kind == kind_for(pod, name.nested)
    &&& name_set(out->Struct_analysis.bases@) == bases_of(item.fields@)
    &&& name_set(out->Struct_analysis.field_deps@) == if pod {
        fields_deps(item.fields@)
    } else {
        Set::empty()
    }
}

/// `out` reports that converting a field of the struct `name` failed.
pub open spec fn struct_failed(out: PodApi, name: ApiName) -> bool {
    &&& out is IgnoredItem
    &&& out->IgnoredItem_name.name@ == name.name@
    &&& out->IgnoredItem_name.nested == name.nested
    &&& out->IgnoredItem_err is UnsupportedFunctionPointer
    &&& names_item(out->IgnoredItem_ctx, name)
}

/// The error context names the declaration `name` by its final identifier.
pub open spec fn names_item(ctx: Option<ErrorContext>, name: ApiName) -> bool {
    ctx matches Some(ErrorContext::Item(id)) && id@ == name.name@.id
}

impl ApiName {
    pub fn clone_api_name(&self) -> (r: ApiName)
        ensures
            r.name@ == self.name@,
            r.nested == self.nested,
    {
        ApiName { name: self.name.clone_name(), nested: self.nested }
    }
}

pub open spec fn enum_classified(out: PodApi, name: ApiName, item: EnumItem) -> bool {
    &&& out is Enum
    &&& out->Enum_name == name
    &&& out->Enum_item.variants == item.variants
    &&& seg_views(out->Enum_item.attrs@) == strip_markers(seg_views(item.attrs@))
}

/// The instantiations that analysing a struct brings to light: only a flat
/// struct has its fields converted.
pub open spec fn struct_discovered(
    known: Seq<QualName>,
    emitted: Seq<QualName>,
    fields: Seq<Field>,
    pod: bool,
) -> Seq<QualName> {
    if pod {
        fields_discovered(known, emitted, fields)
    } else {
        Seq::empty()
    }
}

/// Builds the struct's by-value analysis: its kind, its bases and, when it
/// may be held by value, the named types its fields touch.
pub fn analyze_struct(
    byvalue_checker: &ByValueChecker,
    type_converter: &mut TypeConverter,
    extra_apis: &mut Vec<UnanalyzedApi>,
    name: ApiName,
    item: StructItem,
) -> (r: Result<PodApi, ConvertErrorWithContext>)
    requires
        byvalue_checker.wf(),
        old(type_converter).wf(),
    ensures
        ({
            let pod = pod_name(byvalue_checker.batch(), byvalue_checker.known_types(), name.name@);
            &&& final(type_converter).wf()
            &&& final(type_converter).known_view() == old(type_converter).known_view()
            &&& extended(
                old(extra_apis)@,
                final(extra_apis)@,
                old(type_converter).emitted_view(),
                final(type_converter).emitted_view(),
            )
            &&& (!pod || item.fields@.len() == 0) ==> final(extra_apis)@ == old(extra_apis)@
                && final(type_converter).emitted_view() == old(type_converter).emitted_view()
            &&& r is Err <==> pod && has_function_pointer(item.fields@)
            &&& r matches Err(e) ==> e.0 is UnsupportedFunctionPointer && names_item(e.1, name)
            &&& r matches Ok(out) ==> struct_classified(out, name, item, pod)
            &&& final(type_converter).emitted_view() == old(type_converter).emitted_view()
                + struct_discovered(
                old(type_converter).known_view(),
                old(type_converter).emitted_view(),
                item.fields@,
                pod,
            )
        }),
{
    let ghost item0 = item;
    let mut item = item;
    let id = name.name.get_final_ident();
    remove_bindgen_attrs(&mut item.attrs);
    let bases = get_bases(&item);
    let mut field_deps: Vec<QualifiedName> = Vec::new();
    assert(name_set(field_deps@) =~= Set::<QualName>::empty());
    let kind = if byvalue_checker.is_pod(&name.name) {
        match get_struct_field_types(type_converter, &item, &mut field_deps, extra_apis) {
            Ok(()) => {},
            Err(e) => {
                return Err(ConvertErrorWithContext(e, Some(ErrorContext::Item(id))));
            },
        }
        assert(Set::<QualName>::empty().union(fields_deps(item.fields@)) =~= fields_deps(item.fields@));
        TypeKind::Pod
    } else {
        proof {
            lemma_extended_refl(extra_apis@, type_converter.emitted_view());
            assert(type_converter.emitted_view() + Seq::<QualName>::empty() =~= type_converter.emitted_view());
        }
        if name.nested {
            TypeKind::NonPodNested
        } else {
            TypeKind::NonPod
        }
    };
    Ok(Api::Struct { name, item, analysis: PodAnalysis { kind, bases, field_deps } })
}

/// Enumerations are always flat: only the parsing markers are removed.
pub fn analyze_enum(name: ApiName, item: EnumItem) -> (r: PodApi)
    ensures
        enum_classified(r, name, item),
{
    let mut item = item;
    remove_bindgen_attrs(&mut item.attrs);
    Api::Enum { name, item }
}

} // verus!
