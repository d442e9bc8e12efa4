use vstd::prelude::*;

use crate::api::{Api, ConvertError, TypeArg, TypeRef, UnanalyzedApi};
use crate::config::IncludeCppConfig;
use crate::api::arg_views;
use crate::converter::{concrete_name, make_concrete_name, name_set};
use crate::names::{cpp_name, strings_equal, QualName, QualifiedName};
use crate::pod::insert_name;

verus! {

/// Externally defined types that are known to be flat. A template listed
/// here is flat when instantiated with flat arguments. Every name that is
/// neither declared in the batch nor listed here is taken to be ineligible.
#[derive(Debug)]
pub struct KnownTypes {
    pub by_value: Vec<QualifiedName>,
}

pub open spec fn name_views(v: Seq<QualifiedName>) -> Seq<QualName> {
    v.map_values(|q: QualifiedName| q@)
}

pub proof fn lemma_name_views_push(v: Seq<QualifiedName>, x: QualifiedName)
    ensures
        name_views(v.push(x)) == name_views(v).push(x@),
{
    assert(name_views(v.push(x)).len() == v.len() + 1);
    assert(name_views(v.push(x)) =~= name_views(v).push(x@));
}

pub proof fn lemma_name_views_contains(v: Seq<QualifiedName>, q: QualName)
    ensures
        name_views(v).contains(q) == name_set(v).contains(q),
{
    if name_views(v).contains(q) {
        let i = choose|i: int| 0 <= i < name_views(v).len() && name_views(v)[i] == q;
        assert(v[i]@ == q);
    }
    if name_set(v).contains(q) {
        let i = choose|i: int| 0 <= i < v.len() && #[trigger] v[i]@ == q;
        assert(name_views(v)[i] == q);
    }
}

impl View for KnownTypes {
    type V = Seq<QualName>;

    open spec fn view(&self) -> Seq<QualName> {
        name_views(self.by_value@)
    }
}

/// No two declarations of the batch share a qualified name.
pub open spec fn distinct_names<S>(apis: Seq<Api<S>>) -> bool {
    forall|i: int, j: int|
        0 <= i < apis.len() && 0 <= j < apis.len() && i != j ==> #[trigger] apis[i].spec_name()
            != #[trigger] apis[j].spec_name()
}

pub open spec fn in_batch<S>(apis: Seq<Api<S>>, q: QualName) -> bool {
    exists|i: int| 0 <= i < apis.len() && #[trigger] apis[i].spec_name() == q
}

pub open spec fn batch_index<S>(apis: Seq<Api<S>>, q: QualName) -> int {
    choose|i: int| 0 <= i < apis.len() && #[trigger] apis[i].spec_name() == q
}

/// `q` is shown not flat by looking at most `n` levels of fields deep.
pub open spec fn name_bad(
    apis: Seq<UnanalyzedApi>,
    known: Seq<QualName>,
    q: QualName,
    n: nat,
) -> bool
    decreases n, 0nat,
{
    if in_batch(apis, q) {
        match apis[batch_index(apis, q)] {
            Api::Struct { item, .. } => item.has_lifecycle || item.opaque || (n > 0 && exists|j: int|
                0 <= j < item.fields@.len() && type_bad(
                    apis,
                    known,
                    #[trigger] item.fields@[j].ty,
                    (n - 1) as nat,
                )),
            Api::Typedef { target, .. } => n > 0 && type_bad(apis, known, target, (n - 1) as nat),
            Api::Enum { .. } => false,
            _ => !known.contains(q),
        }
    } else {
        !known.contains(q)
    }
}

pub open spec fn arg_bad(apis: Seq<UnanalyzedApi>, known: Seq<QualName>, a: TypeArg, n: nat) -> bool
    decreases n, 1nat,
{
    match a {
        TypeArg::Primitive(_) => false,
        TypeArg::Named(q) => name_bad(apis, known, q@, n),
    }
}

pub open spec fn type_bad(apis: Seq<UnanalyzedApi>, known: Seq<QualName>, t: TypeRef, n: nat) -> bool
    decreases n, 2nat,
{
    match t {
        TypeRef::Named(q) => name_bad(apis, known, q@, n),
        TypeRef::Generic(tm, args) => !known.contains(tm@) || exists|k: int|
            0 <= k < args@.len() && arg_bad(apis, known, #[trigger] args@[k], n),
        _ => false,
    }
}

/// `q` cannot be held by value: it is flagged, unknown, or reaches such a
/// type through its fields, at any depth.
pub open spec fn ineligible(apis: Seq<UnanalyzedApi>, known: Seq<QualName>, q: QualName) -> bool {
    exists|n: nat| name_bad(apis, known, q, n)
}

/// The type `t` cannot be held by value, looking at any depth.
pub open spec fn type_ineligible(apis: Seq<UnanalyzedApi>, known: Seq<QualName>, t: TypeRef) -> bool {
    exists|n: nat| type_bad(apis, known, t, n)
}

/// `t` is an instantiation named `q` that may be held by value.
pub open spec fn flat_instantiation(
    apis: Seq<UnanalyzedApi>,
    known: Seq<QualName>,
    t: TypeRef,
    q: QualName,
) -> bool {
    &&& t matches TypeRef::Generic(tm, args) && concrete_name(tm@, arg_views(args@)) == q
    &&& !type_ineligible(apis, known, t)
}

/// `q` names a flat instantiation that some struct of the batch uses as a field type.
pub open spec fn inst_pod(apis: Seq<UnanalyzedApi>, known: Seq<QualName>, q: QualName) -> bool {
    exists|i: int, j: int|
        0 <= i < apis.len() && apis[i] is Struct && 0 <= j < apis[i]->Struct_item.fields@.len()
            && flat_instantiation(apis, known, #[trigger] apis[i]->Struct_item.fields@[j].ty, q)
}

/// `q` may be held as flat data: a declaration of the batch that is not
/// ineligible, or else a known flat type or a flat instantiation that the
/// batch uses.
pub open spec fn pod_name(apis: Seq<UnanalyzedApi>, known: Seq<QualName>, q: QualName) -> bool {
    if in_batch(apis, q) {
        !ineligible(apis, known, q)
    } else {
        known.contains(q) || inst_pod(apis, known, q)
    }
}

/// A by-value request is met: it spells a declared or known name that is flat.
pub open spec fn request_ok(apis: Seq<UnanalyzedApi>, known: Seq<QualName>, r: Seq<char>) -> bool {
    exists|q: QualName|
        (in_batch(apis, q) || known.contains(q)) && #[trigger] cpp_name(q) == r && !ineligible(
            apis,
            known,
            q,
        )
}

// Eligibility of a name or type against a tentative marking `cur` of the batch.
pub open spec fn name_ok(
    apis: Seq<UnanalyzedApi>,
    known: Seq<QualName>,
    cur: Seq<bool>,
    q: QualName,
) -> bool {
    if in_batch(apis, q) {
        match apis[batch_index(apis, q)] {
            Api::Struct { .. } => cur[batch_index(apis, q)],
            Api::Typedef { .. } => cur[batch_index(apis, q)],
            Api::Enum { .. } => true,
            _ => known.contains(q),
        }
    } else {
        known.contains(q)
    }
}

pub open spec fn arg_ok(
    apis: Seq<UnanalyzedApi>,
    known: Seq<QualName>,
    cur: Seq<bool>,
    a: TypeArg,
) -> bool {
    match a {
        TypeArg::Primitive(_) => true,
        TypeArg::Named(q) => name_ok(apis, known, cur, q@),
    }
}

pub open spec fn args_ok(
    apis: Seq<UnanalyzedApi>,
    known: Seq<QualName>,
    cur: Seq<bool>,
    args: Seq<TypeArg>,
) -> bool {
    forall|k: int| 0 <= k < args.len() ==> arg_ok(apis, known, cur, #[trigger] args[k])
}

pub open spec fn type_ok(
    apis: Seq<UnanalyzedApi>,
    known: Seq<QualName>,
    cur: Seq<bool>,
    t: TypeRef,
) -> bool {
    match t {
        TypeRef::Named(q) => name_ok(apis, known, cur, q@),
        TypeRef::Generic(tm, args) => known.contains(tm@) && args_ok(apis, known, cur, args@),
        _ => true,
    }
}

pub open spec fn flat_candidate(a: UnanalyzedApi) -> bool {
    match a {
        Api::Struct { item, .. } => !item.has_lifecycle && !item.opaque,
        Api::Typedef { .. } => true,
        _ => false,
    }
}

/// The declarations whose eligibility the marking decides.
pub open spec fn marked_kind(a: UnanalyzedApi) -> bool {
    a is Struct || a is Typedef
}

/// Every struct marked in `cur` is flagged-free; every unmarked struct is ineligible.
pub open spec fn marking_sound(
    apis: Seq<UnanalyzedApi>,
    known: Seq<QualName>,
    cur: Seq<bool>,
) -> bool {
    &&& cur.len() == apis.len()
    &&& forall|i: int| 0 <= i < apis.len() && #[trigger] cur[i] ==> flat_candidate(apis[i])
    &&& forall|i: int|
        0 <= i < apis.len() && marked_kind(apis[i]) && !#[trigger] cur[i] ==> ineligible(
            apis,
            known,
            apis[i].spec_name(),
        )
}

/// Every field of the struct `a` passes under the marking `cur`.
pub open spec fn fields_ok(
    apis: Seq<UnanalyzedApi>,
    known: Seq<QualName>,
    cur: Seq<bool>,
    a: UnanalyzedApi,
) -> bool {
    match a {
        Api::Struct { item, .. } => forall|j: int|
            0 <= j < item.fields@.len() ==> type_ok(apis, known, cur, #[trigger] item.fields@[j].ty),
        Api::Typedef { target, .. } => type_ok(apis, known, cur, target),
        _ => true,
    }
}

/// No marked struct has a field that the marking rejects.
pub open spec fn marking_stable(
    apis: Seq<UnanalyzedApi>,
    known: Seq<QualName>,
    cur: Seq<bool>,
) -> bool {
    forall|i: int| 0 <= i < apis.len() && #[trigger] cur[i] ==> fields_ok(apis, known, cur, apis[i])
}

proof fn lemma_batch_index<S>(apis: Seq<Api<S>>, i: int)
    requires
        distinct_names(apis),
        0 <= i < apis.len(),
    ensures
        in_batch(apis, apis[i].spec_name()),
        batch_index(apis, apis[i].spec_name()) == i,
{
    let q = apis[i].spec_name();
    assert(in_batch(apis, q));
    let k = batch_index(apis, q);
    assert(apis[k].spec_name() == q);
}

proof fn lemma_name_not_ok_bad(
    apis: Seq<UnanalyzedApi>,
    known: Seq<QualName>,
    cur: Seq<bool>,
    q: QualName,
)
    requires
        marking_sound(apis, known, cur),
        !name_ok(apis, known, cur, q),
    ensures
        ineligible(apis, known, q),
{
    if in_batch(apis, q) {
        let i = batch_index(apis, q);
        match apis[i] {
            Api::Struct { .. } => {
                assert(!cur[i]);
            },
            Api::Typedef { .. } => {
                assert(!cur[i]);
            },
            Api::Enum { .. } => {},
            _ => {
                assert(name_bad(apis, known, q, 0));
            },
        }
    } else {
        assert(name_bad(apis, known, q, 0));
    }
}

proof fn lemma_type_not_ok_bad(
    apis: Seq<UnanalyzedApi>,
    known: Seq<QualName>,
    cur: Seq<bool>,
    t: TypeRef,
) -> (n: nat)
    requires
        marking_sound(apis, known, cur),
        !type_ok(apis, known, cur, t),
    ensures
        type_bad(apis, known, t, n),
{
    match t {
        TypeRef::Named(q) => {
            lemma_name_not_ok_bad(apis, known, cur, q@);
            let n = choose|n: nat| name_bad(apis, known, q@, n);
            n
        },
        TypeRef::Generic(tm, args) => {
            if !known.contains(tm@) {
                0
            } else {
                let k = choose|k: int| 0 <= k < args@.len() && !arg_ok(apis, known, cur, #[trigger] args@[k]);
                match args@[k] {
                    TypeArg::Named(q) => {
                        lemma_name_not_ok_bad(apis, known, cur, q@);
                        let n = choose|n: nat| name_bad(apis, known, q@, n);
                        assert(arg_bad(apis, known, args@[k], n));
                        n
                    },
                    TypeArg::Primitive(_) => 0,
                }
            }
        },
        _ => 0,
    }
}

proof fn lemma_stable_not_bad(
    apis: Seq<UnanalyzedApi>,
    known: Seq<QualName>,
    cur: Seq<bool>,
    n: nat,
)
    requires
        marking_sound(apis, known, cur),
        marking_stable(apis, known, cur),
    ensures
        forall|q: QualName| #[trigger] name_ok(apis, known, cur, q) ==> !name_bad(apis, known, q, n),
    decreases n,
{
    if n > 0 {
        lemma_stable_not_bad(apis, known, cur, (n - 1) as nat);
    }
    assert forall|q: QualName| #[trigger] name_ok(apis, known, cur, q) implies !name_bad(
        apis,
        known,
        q,
        n,
    ) by {
        if in_batch(apis, q) {
            let i = batch_index(apis, q);
            match apis[i] {
                Api::Struct { item, .. } => {
                    assert(cur[i]);
                    assert(fields_ok(apis, known, cur, apis[i]));
                    if n > 0 {
                        assert forall|j: int| 0 <= j < item.fields@.len() implies !type_bad(
                            apis,
                            known,
                            #[trigger] item.fields@[j].ty,
                            (n - 1) as nat,
                        ) by {
                            assert(type_ok(apis, known, cur, item.fields@[j].ty));
                            match item.fields@[j].ty {
                                TypeRef::Generic(tm, args) => {
                                    assert forall|k: int| 0 <= k < args@.len() implies !arg_bad(
                                        apis,
                                        known,
                                        #[trigger] args@[k],
                                        (n - 1) as nat,
                                    ) by {
                                        assert(arg_ok(apis, known, cur, args@[k]));
                                    }
                                },
                                _ => {},
                            }
                        }
                    }
                },
                Api::Typedef { target, .. } => {
                    assert(cur[i]);
                    assert(fields_ok(apis, known, cur, apis[i]));
                    if n > 0 {
                        lemma_type_ok_not_bad(apis, known, cur, target, (n - 1) as nat);
                    }
                },
                _ => {},
            }
        }
    }
}

/// Under a stable marking, a type the marking accepts is not shown ineligible
/// at depth `n`.
proof fn lemma_type_ok_not_bad(
    apis: Seq<UnanalyzedApi>,
    known: Seq<QualName>,
    cur: Seq<bool>,
    t: TypeRef,
    n: nat,
)
    requires
        marking_sound(apis, known, cur),
        marking_stable(apis, known, cur),
        forall|q: QualName| #[trigger] name_ok(apis, known, cur, q) ==> !name_bad(apis, known, q, n),
        type_ok(apis, known, cur, t),
    ensures
        !type_bad(apis, known, t, n),
{
    match t {
        TypeRef::Generic(tm, args) => {
            assert forall|k: int| 0 <= k < args@.len() implies !arg_bad(
                apis,
                known,
                #[trigger] args@[k],
                n,
            ) by {
                assert(arg_ok(apis, known, cur, args@[k]));
            }
        },
        _ => {},
    }
}

pub open spec fn count_true(s: Seq<bool>) -> nat
    decreases s.len(),
{
    if s.len() == 0 {
        0
    } else {
        count_true(s.drop_last()) + if s.last() {
            1nat
        } else {
            0nat
        }
    }
}

proof fn lemma_count_true_clear(s: Seq<bool>, i: int)
    requires
        0 <= i < s.len(),
        s[i],
    ensures
        count_true(s.update(i, false)) + 1 == count_true(s),
    decreases s.len(),
{
    let t = s.update(i, false);
    if i < s.len() - 1 {
        assert(t.drop_last() =~= s.drop_last().update(i, false));
        lemma_count_true_clear(s.drop_last(), i);
    } else {
        assert(t.drop_last() =~= s.drop_last());
    }
}

/// Index of the declaration named `q`, if any.
pub fn find_api<S>(apis: &Vec<Api<S>>, q: &QualifiedName) -> (r: Option<usize>)
    requires
        distinct_names(apis@),
    ensures
        r is None <==> !in_batch(apis@, q@),
        r matches Some(i) ==> i < apis@.len() && apis@[i as int].spec_name() == q@
            && batch_index(apis@, q@) == i,
{
    let mut i: usize = 0;
    while i < apis.len()
        invariant
            i <= apis@.len(),
            distinct_names(apis@),
            forall|k: int| 0 <= k < i ==> #[trigger] apis@[k].spec_name() != q@,
        decreases apis@.len() - i,
    {
        if apis[i].name().name.equals(q) {
            proof {
                lemma_batch_index(apis@, i as int);
            }
            return Some(i);
        }
        i += 1;
    }
    None
}

/// Whether no two declarations of the batch share a qualified name.
pub fn has_distinct_names<S>(apis: &Vec<Api<S>>) -> (r: bool)
    ensures
        r == distinct_names(apis@),
{
    let mut i: usize = 0;
    while i < apis.len()
        invariant
            i <= apis@.len(),
            forall|a: int, b: int|
                0 <= a < i && 0 <= b < apis@.len() && a != b ==> #[trigger] apis@[a].spec_name()
                    != #[trigger] apis@[b].spec_name(),
        decreases apis@.len() - i,
    {
        let mut j: usize = 0;
        while j < apis.len()
            invariant
                i < apis@.len(),
                j <= apis@.len(),
                forall|a: int, b: int|
                    0 <= a < i && 0 <= b < apis@.len() && a != b ==> #[trigger] apis@[a].spec_name()
                        != #[trigger] apis@[b].spec_name(),
                forall|b: int|
                    0 <= b < j && b != i ==> apis@[i as int].spec_name() != #[trigger] apis@[b].spec_name(),
            decreases apis@.len() - j,
        {
            if j != i && apis[i].name().name.equals(&apis[j].name().name) {
                return false;
            }
            j += 1;
        }
        i += 1;
    }
    true
}

/// Whether `q` is listed in `names`.
pub fn contains_name(names: &Vec<QualifiedName>, q: &QualifiedName) -> (r: bool)
    ensures
        r == name_views(names@).contains(q@),
{
    let mut i: usize = 0;
    while i < names.len()
        invariant
            i <= names@.len(),
            forall|k: int| 0 <= k < i ==> #[trigger] names@[k]@ != q@,
        decreases names@.len() - i,
    {
        if names[i].equals(q) {
            assert(name_views(names@)[i as int] == q@);
            return true;
        }
        i += 1;
    }
    proof {
        if name_views(names@).contains(q@) {
            let k = choose|k: int| 0 <= k < names@.len() && name_views(names@)[k] == q@;
            assert(names@[k]@ == q@);
        }
    }
    false
}

fn name_ok_exec(
    apis: &Vec<UnanalyzedApi>,
    known: &KnownTypes,
    cur: &Vec<bool>,
    q: &QualifiedName,
) -> (r: bool)
    requires
        distinct_names(apis@),
        cur@.len() == apis@.len(),
    ensures
        r == name_ok(apis@, known@, cur@, q@),
{
    match find_api(apis, q) {
        Some(i) => match &apis[i] {
            Api::Struct { .. } => cur[i],
            Api::Typedef { .. } => cur[i],
            Api::Enum { .. } => true,
            _ => contains_name(&known.by_value, q),
        },
        None => contains_name(&known.by_value, q),
    }
}

fn type_ok_exec(
    apis: &Vec<UnanalyzedApi>,
    known: &KnownTypes,
    cur: &Vec<bool>,
    t: &TypeRef,
) -> (r: bool)
    requires
        distinct_names(apis@),
        cur@.len() == apis@.len(),
    ensures
        r == type_ok(apis@, known@, cur@, *t),
{
    match t {
        TypeRef::Named(q) => name_ok_exec(apis, known, cur, q),
        TypeRef::Generic(tm, args) => {
            if !contains_name(&known.by_value, tm) {
                return false;
            }
            let mut k: usize = 0;
            while k < args.len()
                invariant
                    k <= args@.len(),
                    distinct_names(apis@),
                    cur@.len() == apis@.len(),
                    known@.contains(tm@),
                    type_ok(apis@, known@, cur@, *t) == args_ok(apis@, known@, cur@, args@),
                    forall|m: int| 0 <= m < k ==> arg_ok(apis@, known@, cur@, #[trigger] args@[m]),
                decreases args@.len() - k,
            {
                match &args[k] {
                    TypeArg::Named(q) => {
                        if !name_ok_exec(apis, known, cur, q) {
                            assert(!arg_ok(apis@, known@, cur@, args@[k as int]));
                            return false;
                        }
                    },
                    TypeArg::Primitive(_) => {},
                }
                k += 1;
            }
            true
        },
        _ => true,
    }
}

proof fn lemma_stable_eligible(apis: Seq<UnanalyzedApi>, known: Seq<QualName>, cur: Seq<bool>)
    requires
        marking_sound(apis, known, cur),
        marking_stable(apis, known, cur),
    ensures
        forall|q: QualName| #[trigger] name_ok(apis, known, cur, q) == !ineligible(apis, known, q),
{
    assert forall|q: QualName| #[trigger] name_ok(apis, known, cur, q) == !ineligible(apis, known, q) by {
        if name_ok(apis, known, cur, q) {
            assert forall|n: nat| !name_bad(apis, known, q, n) by {
                lemma_stable_not_bad(apis, known, cur, n);
            }
        } else {
            lemma_name_not_ok_bad(apis, known, cur, q);
        }
    }
}

fn fields_ok_exec(
    apis: &Vec<UnanalyzedApi>,
    known: &KnownTypes,
    cur: &Vec<bool>,
    i: usize,
) -> (r: bool)
    requires
        distinct_names(apis@),
        cur@.len() == apis@.len(),
        i < apis@.len(),
    ensures
        r == fields_ok(apis@, known@, cur@, apis@[i as int]),
{
    match &apis[i] {
        Api::Struct { item, .. } => {
            let mut j: usize = 0;
            while j < item.fields.len()
                invariant
                    j <= item.fields@.len(),
                    i < apis@.len(),
                    fields_ok(apis@, known@, cur@, apis@[i as int]) == forall|m: int|
                        0 <= m < item.fields@.len() ==> type_ok(apis@, known@, cur@, #[trigger] item.fields@[m].ty),
                    distinct_names(apis@),
                    cur@.len() == apis@.len(),
                    forall|m: int|
                        0 <= m < j ==> type_ok(apis@, known@, cur@, #[trigger] item.fields@[m].ty),
                decreases item.fields@.len() - j,
            {
                if !type_ok_exec(apis, known, cur, &item.fields[j].ty) {
                    return false;
                }
                j += 1;
            }
            true
        },
        Api::Typedef { target, .. } => type_ok_exec(apis, known, cur, target),
        _ => true,
    }
}

/// Under a stable marking, the marking accepts a type exactly when it is not ineligible.
proof fn lemma_type_ok_iff(apis: Seq<UnanalyzedApi>, known: Seq<QualName>, cur: Seq<bool>, t: TypeRef)
    requires
        marking_sound(apis, known, cur),
        marking_stable(apis, known, cur),
    ensures
        type_ok(apis, known, cur, t) == !type_ineligible(apis, known, t),
{
    if type_ok(apis, known, cur, t) {
        assert forall|n: nat| !type_bad(apis, known, t, n) by {
            lemma_stable_not_bad(apis, known, cur, n);
            lemma_type_ok_not_bad(apis, known, cur, t, n);
        }
    } else {
        let n = lemma_type_not_ok_bad(apis, known, cur, t);
    }
}

/// The flat instantiations used as field types by the structs before `i`.
pub open spec fn insts_upto(apis: Seq<UnanalyzedApi>, known: Seq<QualName>, i: int, jmax: int) -> Set<
    QualName,
> {
    Set::new(
        |q: QualName|
            exists|a: int, j: int|
                0 <= a <= i && a < apis.len() && apis[a] is Struct && 0 <= j
                    < apis[a]->Struct_item.fields@.len() && (a < i || j < jmax) && flat_instantiation(
                    apis,
                    known,
                    #[trigger] apis[a]->Struct_item.fields@[j].ty,
                    q,
                ),
    )
}

fn collect_instantiations(
    apis: &Vec<UnanalyzedApi>,
    known: &KnownTypes,
    cur: &Vec<bool>,
) -> (r: Vec<QualifiedName>)
    requires
        distinct_names(apis@),
        cur@.len() == apis@.len(),
        marking_sound(apis@, known@, cur@),
        marking_stable(apis@, known@, cur@),
    ensures
        forall|q: QualName| #[trigger] name_set(r@).contains(q) == inst_pod(apis@, known@, q),
{
    let mut insts: Vec<QualifiedName> = Vec::new();
    assert(name_set(insts@) =~= insts_upto(apis@, known@, 0, 0));
    let mut i: usize = 0;
    while i < apis.len()
        invariant
            i <= apis@.len(),
            distinct_names(apis@),
            cur@.len() == apis@.len(),
            marking_sound(apis@, known@, cur@),
            marking_stable(apis@, known@, cur@),
            name_set(insts@) == insts_upto(apis@, known@, i as int, 0),
        decreases apis@.len() - i,
    {
        if let Api::Struct { item, .. } = &apis[i] {
            let mut j: usize = 0;
            while j < item.fields.len()
                invariant
                    i < apis@.len(),
                    apis@[i as int] is Struct,
                    item.fields@ == apis@[i as int]->Struct_item.fields@,
                    j <= item.fields@.len(),
                    distinct_names(apis@),
                    cur@.len() == apis@.len(),
                    marking_sound(apis@, known@, cur@),
                    marking_stable(apis@, known@, cur@),
                    name_set(insts@) == insts_upto(apis@, known@, i as int, j as int),
                decreases item.fields@.len() - j,
            {
                let ghost before = name_set(insts@);
                let ty = &item.fields[j].ty;
                proof {
                    lemma_type_ok_iff(apis@, known@, cur@, *ty);
                }
                let mut added = false;
                if let TypeRef::Generic(tm, args) = ty {
                    if type_ok_exec(apis, known, cur, ty) {
                        let c = make_concrete_name(tm, args);
                        insert_name(&mut insts, c);
                        added = true;
                        proof {
                            assert(flat_instantiation(apis@, known@, item.fields@[j as int].ty, c@));
                        }
                    }
                }
                proof {
                    let nxt = insts_upto(apis@, known@, i as int, j as int + 1);
                    let old_s = insts_upto(apis@, known@, i as int, j as int);
                    assert forall|q: QualName| nxt.contains(q) implies #[trigger] name_set(insts@).contains(q) by {
                        let (a, jj) = choose|a: int, jj: int|
                            0 <= a <= i && a < apis@.len() && apis@[a] is Struct && 0 <= jj
                                < apis@[a]->Struct_item.fields@.len() && (a < i || jj < j + 1)
                                && flat_instantiation(
                                apis@,
                                known@,
                                #[trigger] apis@[a]->Struct_item.fields@[jj].ty,
                                q,
                            );
                        if a < i || jj < j {
                            assert(old_s.contains(q));
                        }
                    }
                    assert forall|q: QualName| #[trigger] name_set(insts@).contains(q) implies nxt.contains(q) by {
                        if old_s.contains(q) {
                            let (a, jj) = choose|a: int, jj: int|
                                0 <= a <= i && a < apis@.len() && apis@[a] is Struct && 0 <= jj
                                    < apis@[a]->Struct_item.fields@.len() && (a < i || jj < j)
                                    && flat_instantiation(
                                    apis@,
                                    known@,
                                    #[trigger] apis@[a]->Struct_item.fields@[jj].ty,
                                    q,
                                );
                            assert(flat_instantiation(apis@, known@, apis@[a]->Struct_item.fields@[jj].ty, q));
                        } else {
                            assert(flat_instantiation(apis@, known@, apis@[i as int]->Struct_item.fields@[j as int].ty, q));
                        }
                    }
                    assert(name_set(insts@) =~= nxt);
                }
                j += 1;
            }
            proof {
                assert(insts_upto(apis@, known@, i as int, j as int) =~= insts_upto(apis@, known@, i as int + 1, 0));
            }
        } else {
            assert(insts_upto(apis@, known@, i as int, 0) =~= insts_upto(apis@, known@, i as int + 1, 0));
        }
        i += 1;
    }
    proof {
        assert forall|q: QualName| #[trigger] name_set(insts@).contains(q) == inst_pod(apis@, known@, q) by {
            if inst_pod(apis@, known@, q) {
                let (a, j) = choose|a: int, j: int|
                    0 <= a < apis@.len() && apis@[a] is Struct && 0 <= j < apis@[a]->Struct_item.fields@.len()
                        && flat_instantiation(apis@, known@, #[trigger] apis@[a]->Struct_item.fields@[j].ty, q);
                assert(insts_upto(apis@, known@, i as int, 0).contains(q));
            }
        }
    }
    insts
}

/// The closed-world by-value oracle over one batch of declarations.
pub struct ByValueChecker {
    names: Vec<QualifiedName>,
    eligible: Vec<bool>,
    known_names: Vec<QualifiedName>,
    instantiations: Vec<QualifiedName>,
    apis: Ghost<Seq<UnanalyzedApi>>,
    known: Ghost<Seq<QualName>>,
}

impl ByValueChecker {
    /// The batch the checker was built over.
    pub closed spec fn batch(&self) -> Seq<UnanalyzedApi> {
        self.apis@
    }

    /// The known flat types the checker was built with.
    pub closed spec fn known_types(&self) -> Seq<QualName> {
        self.known@
    }

    pub closed spec fn wf(&self) -> bool {
        &&& self.names@.len() == self.apis@.len()
        &&& self.eligible@.len() == self.apis@.len()
        &&& distinct_names(self.apis@)
        &&& forall|i: int| 0 <= i < self.apis@.len() ==> #[trigger] self.names@[i]@ == self.apis@[i].spec_name()
        &&& forall|i: int|
            0 <= i < self.apis@.len() ==> #[trigger] self.eligible@[i] == !ineligible(
                self.apis@,
                self.known@,
                self.apis@[i].spec_name(),
            )
        &&& name_views(self.known_names@) == self.known@
        &&& forall|q: QualName|
            #[trigger] name_set(self.instantiations@).contains(q) == inst_pod(self.apis@, self.known@, q)
    }

    /// Decides eligibility for every declaration of the batch, then checks
    /// every by-value request of the configuration against that decision.
    pub fn new_from_apis(
        apis: &Vec<UnanalyzedApi>,
        config: &IncludeCppConfig,
        known: &KnownTypes,
    ) -> (r: Result<ByValueChecker, ConvertError>)
        requires
            distinct_names(apis@),
        ensures
            r is Ok <==> forall|k: int|
                0 <= k < config.pod_requests@.len() ==> request_ok(
                    apis@,
                    known@,
                    #[trigger] config.pod_requests@[k]@,
                ),
            r matches Ok(c) ==> c.wf() && c.batch() == apis@ && c.known_types() == known@,
            r matches Err(e) ==> e matches ConvertError::UnsafePodType(s) && exists|k: int|
                0 <= k < config.pod_requests@.len() && #[trigger] config.pod_requests@[k]@ == s@
                    && !request_ok(apis@, known@, s@),
    {
        let n = apis.len();
        let mut cur: Vec<bool> = Vec::new();
        let mut i: usize = 0;
        while i < n
            invariant
                n == apis@.len(),
                i <= n,
                cur@.len() == i,
                forall|k: int| 0 <= k < i ==> #[trigger] cur@[k] == flat_candidate(apis@[k]),
            decreases n - i,
        {
            let flat = match &apis[i] {
                Api::Struct { item, .. } => !item.has_lifecycle && !item.opaque,
                Api::Typedef { .. } => true,
                _ => false,
            };
            cur.push(flat);
            i += 1;
        }
        proof {
            assert forall|k: int|
                0 <= k < apis@.len() && marked_kind(apis@[k]) && !#[trigger] cur@[k] implies ineligible(
                apis@,
                known@,
                apis@[k].spec_name(),
            ) by {
                lemma_batch_index(apis@, k);
                assert(name_bad(apis@, known@, apis@[k].spec_name(), 0));
            }
        }
        loop
            invariant
                n == apis@.len(),
                distinct_names(apis@),
                marking_sound(apis@, known@, cur@),
            ensures
                marking_sound(apis@, known@, cur@),
                marking_stable(apis@, known@, cur@),
            decreases count_true(cur@),
        {
            let ghost start = cur@;
            let mut changed = false;
            let mut i: usize = 0;
            while i < n
                invariant
                    n == apis@.len(),
                    i <= n,
                    distinct_names(apis@),
                    marking_sound(apis@, known@, cur@),
                    changed ==> count_true(cur@) < count_true(start),
                    !changed ==> cur@ == start,
                    !changed ==> forall|k: int|
                        0 <= k < i && #[trigger] cur@[k] ==> fields_ok(apis@, known@, cur@, apis@[k]),
                decreases n - i,
            {
                if cur[i] && !fields_ok_exec(apis, known, &cur, i) {
                    proof {
                        let a = apis@[i as int];
                        lemma_batch_index(apis@, i as int);
                        match a {
                            Api::Struct { item, .. } => {
                                let j = choose|j: int|
                                    0 <= j < item.fields@.len() && !type_ok(
                                        apis@,
                                        known@,
                                        cur@,
                                        #[trigger] item.fields@[j].ty,
                                    );
                                let d = lemma_type_not_ok_bad(apis@, known@, cur@, item.fields@[j].ty);
                                assert(name_bad(apis@, known@, a.spec_name(), d + 1));
                            },
                            Api::Typedef { target, .. } => {
                                let d = lemma_type_not_ok_bad(apis@, known@, cur@, target);
                                assert(name_bad(apis@, known@, a.spec_name(), d + 1));
                            },
                            _ => {},
                        }
                        lemma_count_true_clear(cur@, i as int);
                    }
                    cur.set(i, false);
                    changed = true;
                }
                i += 1;
            }
            if !changed {
                break;
            }
        }
        proof {
            lemma_stable_eligible(apis@, known@, cur@);
        }
        let mut names: Vec<QualifiedName> = Vec::new();
        let mut eligible: Vec<bool> = Vec::new();
        let mut i: usize = 0;
        while i < n
            invariant
                n == apis@.len(),
                i <= n,
                distinct_names(apis@),
                cur@.len() == n,
                names@.len() == i,
                eligible@.len() == i,
                forall|q: QualName| #[trigger] name_ok(apis@, known@, cur@, q) == !ineligible(apis@, known@, q),
                forall|k: int| 0 <= k < i ==> #[trigger] names@[k]@ == apis@[k].spec_name(),
                forall|k: int|
                    0 <= k < i ==> #[trigger] eligible@[k] == !ineligible(apis@, known@, apis@[k].spec_name()),
            decreases n - i,
        {
            let name = apis[i].name().name.clone_name();
            let ok = name_ok_exec(apis, known, &cur, &name);
            names.push(name);
            eligible.push(ok);
            i += 1;
        }
        let mut known_names: Vec<QualifiedName> = Vec::new();
        let mut k: usize = 0;
        while k < known.by_value.len()
            invariant
                k <= known.by_value@.len(),
                name_views(known_names@) =~= known@.take(k as int),
            decreases known.by_value@.len() - k,
        {
            let ghost before = known_names@;
            known_names.push(known.by_value[k].clone_name());
            proof {
                lemma_name_views_push(before, known_names@.last());
                assert(known_names@ == before.push(known_names@.last()));
                assert(known@.take(k as int + 1) =~= known@.take(k as int).push(known@[k as int]));
            }
            k += 1;
        }
        assert(known@.take(k as int) =~= known@);
        let instantiations = collect_instantiations(apis, known, &cur);
        let checker = ByValueChecker {
            names,
            eligible,
            known_names,
            instantiations,
            apis: Ghost(apis@),
            known: Ghost(known@),
        };
        let requests = config.get_pod_requests();
        let mut k: usize = 0;
        while k < requests.len()
            invariant
                k <= requests@.len(),
                requests@ == config.pod_requests@,
                checker.wf(),
                checker.batch() == apis@,
                checker.known_types() == known@,
                forall|m: int| 0 <= m < k ==> request_ok(apis@, known@, #[trigger] requests@[m]@),
            decreases requests@.len() - k,
        {
            if !checker.request_met(&requests[k]) {
                return Err(ConvertError::UnsafePodType(requests[k].clone()));
            }
            k += 1;
        }
        Ok(checker)
    }

    fn request_met(&self, r: &String) -> (res: bool)
        requires
            self.wf(),
        ensures
            res == request_ok(self.apis@, self.known@, r@),
    {
        let ghost apis = self.apis@;
        let ghost known = self.known@;
        let mut i: usize = 0;
        while i < self.names.len()
            invariant
                self.wf(),
                apis == self.apis@,
                known == self.known@,
                i <= self.names@.len(),
                forall|m: int|
                    0 <= m < i ==> cpp_name(#[trigger] self.names@[m]@) != r@ || ineligible(
                        apis,
                        known,
                        self.names@[m]@,
                    ),
            decreases self.names@.len() - i,
        {
            let name = &self.names[i];
            if self.eligible[i] && strings_equal(&name.to_cpp_name(), r) {
                proof {
                    assert(apis[i as int].spec_name() == name@);
                    assert(in_batch(apis, name@));
                }
                return true;
            }
            i += 1;
        }
        let mut k: usize = 0;
        while k < self.known_names.len()
            invariant
                self.wf(),
                apis == self.apis@,
                known == self.known@,
                k <= self.known_names@.len(),
                forall|m: int|
                    0 <= m < self.names@.len() ==> cpp_name(#[trigger] self.names@[m]@) != r@ || ineligible(
                        apis,
                        known,
                        self.names@[m]@,
                    ),
                forall|m: int|
                    0 <= m < k ==> cpp_name(#[trigger] self.known_names@[m]@) != r@ || ineligible(
                        apis,
                        known,
                        self.known_names@[m]@,
                    ),
            decreases self.known_names@.len() - k,
        {
            let name = &self.known_names[k];
            proof {
                assert(known[k as int] == name@);
                assert(known.contains(name@));
            }
            if strings_equal(&name.to_cpp_name(), r) {
                if self.is_pod(name) {
                    return true;
                }
                proof {
                    if !in_batch(apis, name@) {
                        assert(pod_name(apis, known, name@));
                    }
                }
            }
            k += 1;
        }
        proof {
            assert forall|q: QualName|
                (in_batch(apis, q) || known.contains(q)) && #[trigger] cpp_name(q) == r@ implies ineligible(
                apis,
                known,
                q,
            ) by {
                if in_batch(apis, q) {
                    let m = batch_index(apis, q);
                    assert(self.names@[m]@ == q);
                } else {
                    let m = choose|m: int| 0 <= m < known.len() && known[m] == q;
                    assert(self.known_names@[m]@ == q);
                }
            }
        }
        false
    }

    /// Whether `q` may be held by value. A declaration of the batch answers by
    /// its own eligibility; any other name is flat when it is a known flat
    /// type or a flat instantiation that the batch uses, and not otherwise.
    pub fn is_pod(&self, q: &QualifiedName) -> (r: bool)
        requires
            self.wf(),
        ensures
            r == pod_name(self.batch(), self.known_types(), q@),
    {
        let mut i: usize = 0;
        while i < self.names.len()
            invariant
                self.wf(),
                i <= self.names@.len(),
                forall|m: int| 0 <= m < i ==> #[trigger] self.names@[m]@ != q@,
            decreases self.names@.len() - i,
        {
            if self.names[i].equals(q) {
                proof {
                    lemma_batch_index(self.apis@, i as int);
                }
                return self.eligible[i];
            }
            i += 1;
        }
        proof {
            if in_batch(self.apis@, q@) {
                let m = batch_index(self.apis@, q@);
                assert(self.names@[m]@ == q@);
            }
            lemma_name_views_contains(self.instantiations@, q@);
        }
        contains_name(&self.known_names, q) || contains_name(&self.instantiations, q)
    }
}

} // verus!
