use vstd::prelude::*;

use crate::api::{
    arg_views, Api, ApiName, ArgV, ConvertError, StructItem, TypeArg, TypeRef, TypeV, UnanalyzedApi,
};
use crate::checker::{contains_name, lemma_name_views_push, name_views};
use crate::names::{clone_string, cpp_name, QualName, QualifiedName};

verus! {

/// The set of names held in `v`.
pub open spec fn name_set(v: Seq<QualifiedName>) -> Set<QualName> {
    Set::new(|q: QualName| exists|i: int| 0 <= i < v.len() && #[trigger] v[i]@ == q)
}

pub open spec fn api_names<S>(apis: Seq<Api<S>>) -> Seq<QualName> {
    apis.map_values(|a: Api<S>| a.spec_name())
}

pub open spec fn arg_text(a: ArgV) -> Seq<char> {
    match a {
        ArgV::Primitive(s) => s,
        ArgV::Named(q) => cpp_name(q),
    }
}

/// The arguments as written between the angle brackets, separated by commas.
pub open spec fn args_text(args: Seq<ArgV>) -> Seq<char>
    decreases args.len(),
{
    if args.len() == 0 {
        Seq::empty()
    } else if args.len() == 1 {
        arg_text(args[0])
    } else {
        args_text(args.drop_last()) + seq![','] + arg_text(args.last())
    }
}

/// The name given to the instantiation of template `tm` with `args`:
/// `ns::Tmpl<a,b>`, in the template's own scope.
pub open spec fn concrete_name(tm: QualName, args: Seq<ArgV>) -> QualName {
    QualName { ns: tm.ns, id: tm.id + seq!['<'] + args_text(args) + seq!['>'] }
}

pub open spec fn arg_deps(a: ArgV) -> Set<QualName> {
    match a {
        ArgV::Primitive(_) => Set::empty(),
        ArgV::Named(q) => set![q],
    }
}

pub open spec fn args_deps(args: Seq<ArgV>) -> Set<QualName> {
    Set::new(|q: QualName| exists|k: int| 0 <= k < args.len() && #[trigger] args[k] == ArgV::Named(q))
}

/// Every named type that one occurrence of `t` touches.
pub open spec fn type_deps(t: TypeV) -> Set<QualName> {
    match t {
        TypeV::Named(q) => set![q],
        TypeV::Pointer(a) => arg_deps(a),
        TypeV::Generic(tm, args) => set![concrete_name(tm, args)].union(args_deps(args)),
        _ => Set::empty(),
    }
}

/// The target-side form of `t`: an instantiation becomes its concrete name.
pub open spec fn converted(t: TypeV) -> TypeV {
    match t {
        TypeV::Generic(tm, args) => TypeV::Named(concrete_name(tm, args)),
        _ => t,
    }
}

/// The instantiations that converting `t` brings to light, given the names
/// already declared and those already emitted.
pub open spec fn discovered(known: Seq<QualName>, emitted: Seq<QualName>, t: TypeV) -> Seq<QualName> {
    match t {
        TypeV::Generic(tm, args) => {
            let c = concrete_name(tm, args);
            if !known.contains(c) && !emitted.contains(c) {
                seq![c]
            } else {
                Seq::empty()
            }
        },
        _ => Seq::empty(),
    }
}

/// `a` is the declaration made for the instantiation named `c`: a top-level
/// struct with no fields of its own and no lifecycle or opacity flag, whose
/// eligibility is decided by the checker's rule for instantiations.
pub open spec fn instantiation_decl(a: UnanalyzedApi, c: QualName) -> bool {
    &&& a is Struct
    &&& a.spec_name() == c
    &&& !a->Struct_name.nested
    &&& a->Struct_item.fields@.len() == 0
    &&& a->Struct_item.attrs@.len() == 0
    &&& !a->Struct_item.has_lifecycle
    &&& !a->Struct_item.opaque
}

/// The result of converting one type reference.
#[derive(Debug)]
pub struct Annotated {
    pub ty: TypeRef,
    pub extra_apis: Vec<UnanalyzedApi>,
    pub types_encountered: Vec<QualifiedName>,
}

/// Converts type references, remembering which instantiations it has emitted.
pub struct TypeConverter {
    known_names: Vec<QualifiedName>,
    emitted: Vec<QualifiedName>,
}

fn arg_text_exec(a: &TypeArg) -> (r: String)
    ensures
        r@ == arg_text(a@),
{
    match a {
        TypeArg::Primitive(s) => clone_string(s),
        TypeArg::Named(q) => q.to_cpp_name(),
    }
}

/// Builds the concrete name of an instantiation.
pub fn make_concrete_name(tm: &QualifiedName, args: &Vec<TypeArg>) -> (r: QualifiedName)
    ensures
        r@ == concrete_name(tm@, arg_views(args@)),
{
    let mut id = clone_string(&tm.id);
    id.append("<");
    proof {
        reveal_strlit("<");
        assert("<"@ =~= seq!['<']);
    }
    let ghost start = id@;
    let mut k: usize = 0;
    while k < args.len()
        invariant
            k <= args@.len(),
            id@ == start + args_text(arg_views(args@).take(k as int)),
        decreases args@.len() - k,
    {
        let ghost before = id@;
        if k > 0 {
            id.append(",");
            proof {
                reveal_strlit(",");
                assert(","@ =~= seq![',']);
            }
        }
        let text = arg_text_exec(&args[k]);
        id.append(text.as_str());
        proof {
            let t = arg_views(args@).take(k as int + 1);
            assert(t.drop_last() =~= arg_views(args@).take(k as int));
            assert(t.last() == args@[k as int]@);
            if k == 0 {
                assert(arg_views(args@).take(0) =~= Seq::<ArgV>::empty());
            }
        }
        k += 1;
    }
    assert(arg_views(args@).take(k as int) =~= arg_views(args@));
    id.append(">");
    proof {
        reveal_strlit(">");
        assert(">"@ =~= seq!['>']);
    }
    QualifiedName { ns: tm.ns.clone_ns(), id }
}

pub proof fn lemma_name_set_push(v: Seq<QualifiedName>, x: QualifiedName)
    ensures
        name_set(v.push(x)) == name_set(v).insert(x@),
{
    let w = v.push(x);
    assert forall|q: QualName| name_set(w).contains(q) implies name_set(v).insert(x@).contains(q) by {
        let i = choose|i: int| 0 <= i < w.len() && #[trigger] w[i]@ == q;
        if i < v.len() {
            assert(v[i]@ == q);
        }
    }
    assert forall|q: QualName| name_set(v).insert(x@).contains(q) implies name_set(w).contains(q) by {
        if q == x@ {
            assert(w[v.len() as int]@ == q);
        } else {
            let i = choose|i: int| 0 <= i < v.len() && #[trigger] v[i]@ == q;
            assert(w[i]@ == q);
        }
    }
    assert(name_set(w) =~= name_set(v).insert(x@));
}

proof fn lemma_args_deps_step(s: Seq<ArgV>, k: int)
    requires
        0 <= k < s.len(),
    ensures
        args_deps(s.take(k + 1)) == args_deps(s.take(k)).union(arg_deps(s[k])),
{
    let a = s.take(k + 1);
    let b = s.take(k);
    assert forall|q: QualName| args_deps(a).contains(q) implies args_deps(b).union(
        arg_deps(s[k]),
    ).contains(q) by {
        let m = choose|m: int| 0 <= m < a.len() && #[trigger] a[m] == ArgV::Named(q);
        if m < k {
            assert(b[m] == ArgV::Named(q));
        }
    }
    assert forall|q: QualName| args_deps(b).union(arg_deps(s[k])).contains(q) implies args_deps(
        a,
    ).contains(q) by {
        if args_deps(b).contains(q) {
            let m = choose|m: int| 0 <= m < b.len() && #[trigger] b[m] == ArgV::Named(q);
            assert(a[m] == ArgV::Named(q));
        } else {
            assert(a[k] == ArgV::Named(q));
        }
    }
    assert(args_deps(a) =~= args_deps(b).union(arg_deps(s[k])));
}

impl TypeConverter {
    pub closed spec fn known_view(&self) -> Seq<QualName> {
        name_views(self.known_names@)
    }

    pub closed spec fn emitted_view(&self) -> Seq<QualName> {
        name_views(self.emitted@)
    }

    /// No emitted instantiation is a declared name.
    pub open spec fn wf(&self) -> bool {
        forall|k: int|
            0 <= k < self.emitted_view().len() ==> !self.known_view().contains(
                #[trigger] self.emitted_view()[k],
            )
    }

    /// A converter for a batch: the batch's names count as already declared.
    pub fn new<S>(apis: &Vec<Api<S>>) -> (r: TypeConverter)
        ensures
            r.known_view() == api_names(apis@),
            r.emitted_view() == Seq::<QualName>::empty(),
            r.wf(),
    {
        let mut known_names: Vec<QualifiedName> = Vec::new();
        let mut i: usize = 0;
        while i < apis.len()
            invariant
                i <= apis@.len(),
                name_views(known_names@) =~= api_names(apis@).take(i as int),
            decreases apis@.len() - i,
        {
            let ghost before = known_names@;
            known_names.push(apis[i].name().name.clone_name());
            proof {
                assert(known_names@ == before.push(known_names@.last()));
                assert(name_views(before) =~= api_names(apis@).take(i as int));
                lemma_name_views_push(before, known_names@.last());
                assert(api_names(apis@).take(i as int + 1) =~= api_names(apis@).take(i as int).push(
                    apis@[i as int].spec_name(),
                ));
                assert(name_views(known_names@) =~= api_names(apis@).take(i as int + 1));
            }
            i += 1;
        }
        assert(api_names(apis@).take(i as int) =~= api_names(apis@));
        let emitted: Vec<QualifiedName> = Vec::new();
        assert(name_views(emitted@) =~= Seq::<QualName>::empty());
        TypeConverter { known_names, emitted }
    }
}

impl TypeConverter {
    /// Converts one occurrence of a type reference. An instantiation not
    /// declared in the batch and not emitted before yields one new declaration.
    pub fn convert_type(&mut self, t: &TypeRef) -> (r: Result<Annotated, ConvertError>)
        requires
            old(self).wf(),
        ensures
            final(self).wf(),
            final(self).known_view() == old(self).known_view(),
            r is Err <==> t@ is FunctionPointer,
            r matches Err(e) ==> e is UnsupportedFunctionPointer && final(self).emitted_view() == old(
                self,
            ).emitted_view(),
            r matches Ok(a) ==> {
                let found = discovered(old(self).known_view(), old(self).emitted_view(), t@);
                &&& a.ty@ == converted(t@)
                &&& name_set(a.types_encountered@) == type_deps(t@)
                &&& a.extra_apis@.len() == found.len()
                &&& forall|k: int|
                    0 <= k < found.len() ==> instantiation_decl(#[trigger] a.extra_apis@[k], found[k])
                &&& final(self).emitted_view() == old(self).emitted_view() + found
            },
    {
        match t {
            TypeRef::FunctionPointer => Err(ConvertError::UnsupportedFunctionPointer),
            TypeRef::Primitive(s) => {
                let types_encountered: Vec<QualifiedName> = Vec::new();
                assert(name_set(types_encountered@) =~= Set::<QualName>::empty());
                assert(old(self).emitted_view() + Seq::<QualName>::empty() =~= old(self).emitted_view());
                Ok(
                    Annotated {
                        ty: TypeRef::Primitive(clone_string(s)),
                        extra_apis: Vec::new(),
                        types_encountered,
                    },
                )
            },
            TypeRef::Named(q) => {
                let mut types_encountered: Vec<QualifiedName> = Vec::new();
                types_encountered.push(q.clone_name());
                proof {
                    lemma_name_set_push(Seq::empty(), types_encountered@[0]);
                    assert(types_encountered@ == Seq::<QualifiedName>::empty().push(types_encountered@[0]));
                    assert(name_set(Seq::<QualifiedName>::empty()) =~= Set::<QualName>::empty());
                    assert(old(self).emitted_view() + Seq::<QualName>::empty() =~= old(self).emitted_view());
                }
                Ok(
                    Annotated {
                        ty: TypeRef::Named(q.clone_name()),
                        extra_apis: Vec::new(),
                        types_encountered,
                    },
                )
            },
            TypeRef::Pointer(a) => {
                let mut types_encountered: Vec<QualifiedName> = Vec::new();
                assert(name_set(types_encountered@) =~= Set::<QualName>::empty());
                if let TypeArg::Named(q) = a {
                    types_encountered.push(q.clone_name());
                    proof {
                        lemma_name_set_push(Seq::empty(), types_encountered@[0]);
                        assert(types_encountered@ == Seq::<QualifiedName>::empty().push(types_encountered@[0]));
                    }
                }
                assert(old(self).emitted_view() + Seq::<QualName>::empty() =~= old(self).emitted_view());
                Ok(
                    Annotated {
                        ty: TypeRef::Pointer(a.clone_arg()),
                        extra_apis: Vec::new(),
                        types_encountered,
                    },
                )
            },
            TypeRef::Generic(tm, args) => {
                let c = make_concrete_name(tm, args);
                let mut types_encountered: Vec<QualifiedName> = Vec::new();
                types_encountered.push(c.clone_name());
                proof {
                    lemma_name_set_push(Seq::empty(), types_encountered@[0]);
                    assert(types_encountered@ == Seq::<QualifiedName>::empty().push(types_encountered@[0]));
                    assert(name_set(Seq::<QualifiedName>::empty()) =~= Set::<QualName>::empty());
                    assert(args_deps(arg_views(args@).take(0)) =~= Set::<QualName>::empty());
                    assert(set![c@] =~= Set::<QualName>::empty().insert(c@));
                    assert(set![c@].union(Set::<QualName>::empty()) =~= set![c@]);
                }
                let mut k: usize = 0;
                while k < args.len()
                    invariant
                        k <= args@.len(),
                        name_set(types_encountered@) == set![c@].union(
                            args_deps(arg_views(args@).take(k as int)),
                        ),
                    decreases args@.len() - k,
                {
                    let ghost before = types_encountered@;
                    proof {
                        lemma_args_deps_step(arg_views(args@), k as int);
                    }
                    if let TypeArg::Named(q) = &args[k] {
                        types_encountered.push(q.clone_name());
                        proof {
                            lemma_name_set_push(before, types_encountered@.last());
                            assert(types_encountered@ == before.push(types_encountered@.last()));
                            assert(name_set(types_encountered@) =~= set![c@].union(
                                args_deps(arg_views(args@).take(k as int + 1)),
                            ));
                        }
                    } else {
                        assert(set![c@].union(args_deps(arg_views(args@).take(k as int))) =~= set![
                            c@,
                        ].union(args_deps(arg_views(args@).take(k as int + 1))));
                    }
                    k += 1;
                }
                assert(arg_views(args@).take(k as int) =~= arg_views(args@));
                let mut extra_apis: Vec<UnanalyzedApi> = Vec::new();
                let novel = !contains_name(&self.known_names, &c) && !contains_name(&self.emitted, &c);
                if novel {
                    let ghost before = self.emitted@;
                    self.emitted.push(c.clone_name());
                    proof {
                        lemma_name_views_push(before, self.emitted@.last());
                        assert(self.emitted@ == before.push(self.emitted@.last()));
                    }
                    extra_apis.push(
                        Api::Struct {
                            name: ApiName { name: c.clone_name(), nested: false },
                            item: StructItem {
                                attrs: Vec::new(),
                                fields: Vec::new(),
                                has_lifecycle: false,
                                opaque: false,
                            },
                            analysis: (),
                        },
                    );
                } else {
                    assert(old(self).emitted_view() + Seq::<QualName>::empty() =~= old(self).emitted_view());
                }
                Ok(Annotated { ty: TypeRef::Named(c), extra_apis, types_encountered })
            },
        }
    }
}

} // verus!
