use vstd::prelude::*;

use crate::names::{clone_string, seg_views, strings_equal};

verus! {

/// Whether generated functions are marked safe to call.
#[derive(Debug, Clone, Copy, PartialEq, Eq, Structural)]
pub enum UnsafePolicy {
    AllFunctionsSafe,
    AllFunctionsUnsafe,
}

/// A directive set that cannot be met or makes no sense.
#[derive(Debug, Clone, Copy, PartialEq, Eq, Structural)]
pub enum ConfigError {
    /// Both an explicit list and `generate_all` were given.
    AllowlistConflict,
    /// Neither an explicit list nor `generate_all` was given, and one was required.
    AllowlistUnspecified,
    /// A safety directive named something other than `unsafe_ffi`.
    ExpectedUnsafeFfi,
    /// A safety directive went on after its one word.
    UnexpectedSafetyTokens,
    /// A `#` directive other than `#include`.
    ExpectedInclude,
    /// A directive's arguments do not have the shape it takes.
    MalformedArguments,
    /// A directive that takes no arguments was given some.
    ExpectedNoArguments,
    /// A directive name that the language does not have.
    UnknownDirective,
}

/// Which declarations the user asked to have generated.
#[derive(Debug)]
pub enum Allowlist {
    /// Nothing decided yet; holds the names given so far.
    Unspecified(Vec<String>),
    All,
    Specific(Vec<String>),
}

/// A user-declared subclass of a foreign class.
#[derive(Debug)]
pub struct Subclass {
    pub superclass: String,
    pub subclass: String,
}

/// A function implemented on the target-language side, by its identifier.
#[derive(Debug)]
pub struct RustFun {
    pub path: String,
    pub ident: String,
}

/// The validated directive set, read-only to the analysis.
#[derive(Debug)]
pub struct IncludeCppConfig {
    pub inclusions: Vec<String>,
    pub unsafe_policy: UnsafePolicy,
    pub parse_only: bool,
    pub exclude_impls: bool,
    pub pod_requests: Vec<String>,
    pub allowlist: Allowlist,
    pub blocklist: Vec<String>,
    pub exclude_utilities: bool,
    pub mod_name: Option<String>,
    /// Final identifiers of the types defined on the target-language side.
    pub rust_types: Vec<String>,
    pub subclasses: Vec<Subclass>,
    pub extern_rust_funs: Vec<RustFun>,
}

pub fn concat(a: &str, b: &str) -> (r: String)
    ensures
        r@ == a@ + b@,
{
    let mut r = String::new();
    r.append(a);
    r.append(b);
    r
}

/// Whether `v` holds `s`.
pub fn contains_string(v: &Vec<String>, s: &String) -> (r: bool)
    ensures
        r == seg_views(v@).contains(s@),
{
    let mut i: usize = 0;
    while i < v.len()
        invariant
            i <= v@.len(),
            forall|k: int| 0 <= k < i ==> #[trigger] v@[k]@ != s@,
        decreases v@.len() - i,
    {
        if strings_equal(&v[i], s) {
            assert(seg_views(v@)[i as int] == s@);
            return true;
        }
        i += 1;
    }
    proof {
        if seg_views(v@).contains(s@) {
            let k = choose|k: int| 0 <= k < v@.len() && seg_views(v@)[k] == s@;
            assert(v@[k]@ == s@);
        }
    }
    false
}

/// Appends a copy of every string of `src` to `dst`.
pub fn extend_strings(dst: &mut Vec<String>, src: &Vec<String>)
    ensures
        seg_views(final(dst)@) == seg_views(old(dst)@) + seg_views(src@),
{
    let ghost d0 = seg_views(dst@);
    let mut i: usize = 0;
    while i < src.len()
        invariant
            i <= src@.len(),
            d0 == seg_views(old(dst)@),
            seg_views(dst@) =~= d0 + seg_views(src@).take(i as int),
        decreases src@.len() - i,
    {
        let ghost before = dst@;
        dst.push(clone_string(&src[i]));
        proof {
            assert(dst@ == before.push(dst@.last()));
            assert(seg_views(dst@) =~= seg_views(before).push(src@[i as int]@));
            assert(seg_views(src@).take(i as int + 1) =~= seg_views(src@).take(i as int).push(
                src@[i as int]@,
            ));
        }
        i += 1;
    }
    assert(seg_views(src@).take(i as int) =~= seg_views(src@));
}

/// One token inside a directive's parentheses, or after `#include`.
#[derive(Debug)]
pub enum DirectiveArg {
    Str(String),
    Ident(String),
    Comma,
    /// Any other punctuation or literal, as written.
    Other(String),
}

/// Mathematical model of a `DirectiveArg`.
pub enum ArgTok {
    Str(Seq<char>),
    Ident(Seq<char>),
    Comma,
    Other(Seq<char>),
}

impl View for DirectiveArg {
    type V = ArgTok;

    open spec fn view(&self) -> ArgTok {
        match self {
            DirectiveArg::Str(s) => ArgTok::Str(s@),
            DirectiveArg::Ident(s) => ArgTok::Ident(s@),
            DirectiveArg::Comma => ArgTok::Comma,
            DirectiveArg::Other(s) => ArgTok::Other(s@),
        }
    }
}

pub open spec fn tok_views(v: Seq<DirectiveArg>) -> Seq<ArgTok> {
    v.map_values(|a: DirectiveArg| a@)
}

impl UnsafePolicy {
    /// Reads a safety directive's tokens: `unsafe` or `unsafe_ffi`, alone,
    /// make every function safe to call; no token leaves them all unsafe.
    pub fn parse(args: &Vec<DirectiveArg>) -> (r: Result<UnsafePolicy, ConfigError>)
        ensures
            r == parse_policy(tok_views(args@)),
    {
        if args.len() == 0 {
            return Ok(UnsafePolicy::AllFunctionsUnsafe);
        }
        if args.len() > 1 {
            return Err(ConfigError::UnexpectedSafetyTokens);
        }
        match &args[0] {
            DirectiveArg::Ident(w) => if has_word(w, "unsafe") || has_word(w, "unsafe_ffi") {
                Ok(UnsafePolicy::AllFunctionsSafe)
            } else {
                Err(ConfigError::ExpectedUnsafeFfi)
            },
            _ => Err(ConfigError::UnexpectedSafetyTokens),
        }
    }
}

/// The policy a safety directive's tokens give.
pub open spec fn parse_policy(args: Seq<ArgTok>) -> Result<UnsafePolicy, ConfigError> {
    if args.len() == 0 {
        Ok(UnsafePolicy::AllFunctionsUnsafe)
    } else if args.len() > 1 {
        Err(ConfigError::UnexpectedSafetyTokens)
    } else if args[0] == ArgTok::Ident("unsafe"@) || args[0] == ArgTok::Ident("unsafe_ffi"@) {
        Ok(UnsafePolicy::AllFunctionsSafe)
    } else if args[0] is Ident {
        Err(ConfigError::ExpectedUnsafeFfi)
    } else {
        Err(ConfigError::UnexpectedSafetyTokens)
    }
}

pub(crate) fn has_word(s: &String, w: &str) -> (r: bool)
    ensures
        r == (s@ == w@),
{
    let t = String::from_str(w);
    strings_equal(s, &t)
}

impl Allowlist {
    /// Adds an explicitly requested name; an undecided list becomes explicit.
    pub fn push(&mut self, item: String) -> (r: Result<(), ConfigError>)
        ensures
            match allow_push(old(self)@, item@) {
                Ok(a) => r is Ok && final(self)@ == a,
                Err(e) => r == Err::<(), ConfigError>(e) && *final(self) == *old(self),
            },
    {
        match self {
            Allowlist::All => Err(ConfigError::AllowlistConflict),
            Allowlist::Specific(list) => {
                let ghost before = list@;
                list.push(item);
                proof {
                    assert(seg_views(list@) =~= seg_views(before).push(item@));
                }
                Ok(())
            },
            Allowlist::Unspecified(list) => {
                let mut new_list: Vec<String> = Vec::new();
                extend_strings(&mut new_list, list);
                let ghost before = new_list@;
                new_list.push(item);
                proof {
                    assert(seg_views(Seq::<String>::empty()) =~= Seq::<Seq<char>>::empty());
                    assert(Seq::<Seq<char>>::empty() + seg_views((*old(self))->Unspecified_0@) =~= seg_views((*old(self))->Unspecified_0@));
                    assert(seg_views(new_list@) =~= seg_views(before).push(item@));
                }
                *self = Allowlist::Specific(new_list);
                Ok(())
            },
        }
    }

    /// Asks for every declaration; conflicts with an explicit list.
    pub fn set_all(&mut self) -> (r: Result<(), ConfigError>)
        ensures
            match allow_set_all(old(self)@) {
                Ok(a) => r is Ok && final(self)@ == a,
                Err(e) => r == Err::<(), ConfigError>(e) && *final(self) == *old(self),
            },
    {
        if let Allowlist::Specific(_) = self {
            return Err(ConfigError::AllowlistConflict);
        }
        *self = Allowlist::All;
        Ok(())
    }
}

impl Default for Allowlist {
    fn default() -> (r: Allowlist)
        ensures
            r@ == AllowV::Unspecified(Seq::empty()),
    {
        let v: Vec<String> = Vec::new();
        assert(seg_views(v@) =~= Seq::<Seq<char>>::empty());
        Allowlist::Unspecified(v)
    }
}

/// The names a list of subclass declarations needs: for each, its shim
/// `<Sub>Cpp`, the subclass itself and the superclass.
pub open spec fn subclass_names(subclasses: Seq<Subclass>) -> Seq<Seq<char>>
    decreases subclasses.len(),
{
    if subclasses.len() == 0 {
        Seq::empty()
    } else {
        let sc = subclasses.last();
        subclass_names(subclasses.drop_last()) + seq![
            sc.subclass@ + "Cpp"@,
            sc.subclass@,
            sc.superclass@,
        ]
    }
}

pub open spec fn superclass_set(subclasses: Seq<Subclass>) -> Set<Seq<char>> {
    Set::new(
        |s: Seq<char>| exists|k: int| 0 <= k < subclasses.len() && #[trigger] subclasses[k].superclass@ == s,
    )
}

impl IncludeCppConfig {
    pub open spec fn mod_name_or(&self, default: Seq<char>) -> Seq<char> {
        match self.mod_name {
            Some(n) => n@,
            None => default,
        }
    }

    pub open spec fn spec_makestring_name(&self) -> Seq<char> {
        "autocxx_make_string_"@ + self.mod_name_or("default"@)
    }

    pub open spec fn spec_active_utilities(&self) -> Seq<Seq<char>> {
        if self.exclude_utilities {
            Seq::empty()
        } else {
            seq![self.spec_makestring_name()]
        }
    }

    pub open spec fn spec_explicit_items(&self) -> Seq<Seq<char>> {
        match self.allowlist {
            Allowlist::Specific(items) => seg_views(items@),
            _ => Seq::empty(),
        }
    }

    /// What is handed to the header parser as its allowlist, when one applies.
    pub open spec fn spec_bindgen_allowlist(&self) -> Seq<Seq<char>> {
        self.spec_explicit_items() + seg_views(self.pod_requests@) + self.spec_active_utilities()
            + subclass_names(self.subclasses@)
    }

    pub open spec fn spec_is_subclass_holder(&self, id: Seq<char>) -> bool {
        exists|k: int|
            0 <= k < self.subclasses@.len() && #[trigger] self.subclasses@[k].subclass@ + "Holder"@
                == id
    }

    pub open spec fn spec_is_subclass_cpp(&self, id: Seq<char>) -> bool {
        exists|k: int|
            0 <= k < self.subclasses@.len() && #[trigger] self.subclasses@[k].subclass@ + "Cpp"@ == id
    }

    pub open spec fn spec_is_rust_fun(&self, id: Seq<char>) -> bool {
        exists|k: int|
            0 <= k < self.extern_rust_funs@.len() && #[trigger] self.extern_rust_funs@[k].ident@ == id
    }

    pub fn get_pod_requests(&self) -> (r: &Vec<String>)
        ensures
            r@ == self.pod_requests@,
    {
        &self.pod_requests
    }

    /// The generated module's name, `ffi` unless one was given.
    pub fn get_mod_name(&self) -> (r: String)
        ensures
            r@ == self.mod_name_or("ffi"@),
    {
        match &self.mod_name {
            Some(n) => clone_string(n),
            None => String::from_str("ffi"),
        }
    }

    /// Whether to avoid generating the standard utility helpers.
    pub fn exclude_utilities(&self) -> (r: bool)
        ensures
            r == self.exclude_utilities,
    {
        self.exclude_utilities
    }

    /// Items the user explicitly asked for: failing to generate one is an error.
    pub fn must_generate_list(&self) -> (r: Vec<String>)
        ensures
            seg_views(r@) == self.spec_explicit_items() + seg_views(self.pod_requests@),
    {
        let mut r: Vec<String> = Vec::new();
        assert(seg_views(r@) =~= Seq::<Seq<char>>::empty());
        if let Allowlist::Specific(items) = &self.allowlist {
            extend_strings(&mut r, items);
        }
        extend_strings(&mut r, &self.pod_requests);
        assert(seg_views(r@) =~= self.spec_explicit_items() + seg_views(self.pod_requests@));
        r
    }

    /// The name of the generated string-making helper.
    pub fn get_makestring_name(&self) -> (r: String)
        ensures
            r@ == self.spec_makestring_name(),
    {
        match &self.mod_name {
            Some(n) => concat("autocxx_make_string_", n.as_str()),
            None => concat("autocxx_make_string_", "default"),
        }
    }

    pub fn active_utilities(&self) -> (r: Vec<String>)
        ensures
            seg_views(r@) == self.spec_active_utilities(),
    {
        let mut r: Vec<String> = Vec::new();
        if !self.exclude_utilities {
            r.push(self.get_makestring_name());
        }
        assert(seg_views(r@) =~= self.spec_active_utilities());
        r
    }

    /// The allowlist handed to the header parser: none when everything is
    /// wanted. The list must have been settled before.
    pub fn bindgen_allowlist(&self) -> (r: Option<Vec<String>>)
        requires
            !(self.allowlist is Unspecified),
        ensures
            self.allowlist is All <==> r is None,
            r matches Some(v) ==> seg_views(v@) == self.spec_bindgen_allowlist(),
    {
        match &self.allowlist {
            Allowlist::All => None,
            Allowlist::Specific(items) => {
                let mut r: Vec<String> = Vec::new();
                assert(seg_views(r@) =~= Seq::<Seq<char>>::empty());
                extend_strings(&mut r, items);
                extend_strings(&mut r, &self.pod_requests);
                let utilities = self.active_utilities();
                extend_strings(&mut r, &utilities);
                let ghost head = seg_views(r@);
                let mut k: usize = 0;
                while k < self.subclasses.len()
                    invariant
                        k <= self.subclasses@.len(),
                        seg_views(r@) == head + subclass_names(self.subclasses@.take(k as int)),
                    decreases self.subclasses@.len() - k,
                {
                    let sc = &self.subclasses[k];
                    let ghost before = seg_views(r@);
                    r.push(concat(sc.subclass.as_str(), "Cpp"));
                    r.push(clone_string(&sc.subclass));
                    r.push(clone_string(&sc.superclass));
                    proof {
                        let ghost t = self.subclasses@.take(k as int + 1);
                        assert(t.drop_last() =~= self.subclasses@.take(k as int));
                        assert(t.last() == *sc);
                        assert(seg_views(r@) =~= before + seq![
                            sc.subclass@ + "Cpp"@,
                            sc.subclass@,
                            sc.superclass@,
                        ]);
                    }
                    k += 1;
                }
                assert(self.subclasses@.take(k as int) =~= self.subclasses@);
                Some(r)
            },
            Allowlist::Unspecified(_) => None,
        }
    }

    /// Whether a name may be generated: everything when all is wanted, else
    /// what the allowlist, the utilities, the subclass shims or the
    /// target-side functions name. The list must have been settled before.
    pub fn is_on_allowlist(&self, cpp_name: &String) -> (r: bool)
        requires
            !(self.allowlist is Unspecified),
        ensures
            r == (self.allowlist is All || self.spec_bindgen_allowlist().contains(cpp_name@)
                || self.spec_active_utilities().contains(cpp_name@) || self.spec_is_subclass_holder(
                cpp_name@,
            ) || self.spec_is_subclass_cpp(cpp_name@) || self.spec_is_rust_fun(cpp_name@)),
    {
        match self.bindgen_allowlist() {
            None => true,
            Some(items) => {
                contains_string(&items, cpp_name) || contains_string(&self.active_utilities(), cpp_name)
                    || self.is_subclass_holder(cpp_name) || self.is_subclass_cpp(cpp_name)
                    || self.is_rust_fun(cpp_name)
            },
        }
    }

    pub fn is_on_blocklist(&self, cpp_name: &String) -> (r: bool)
        ensures
            r == seg_views(self.blocklist@).contains(cpp_name@),
    {
        contains_string(&self.blocklist, cpp_name)
    }

    pub fn get_blocklist(&self) -> (r: &Vec<String>)
        ensures
            r@ == self.blocklist@,
    {
        &self.blocklist
    }

    /// Whether `id` is a type defined on the target-language side, or the
    /// holder of a declared subclass.
    pub fn is_rust_type(&self, id: &String) -> (r: bool)
        ensures
            r == (seg_views(self.rust_types@).contains(id@) || self.spec_is_subclass_holder(id@)),
    {
        contains_string(&self.rust_types, id) || self.is_subclass_holder(id)
    }

    fn is_rust_fun(&self, possible_fun: &String) -> (r: bool)
        ensures
            r == self.spec_is_rust_fun(possible_fun@),
    {
        let mut k: usize = 0;
        while k < self.extern_rust_funs.len()
            invariant
                k <= self.extern_rust_funs@.len(),
                forall|m: int| 0 <= m < k ==> #[trigger] self.extern_rust_funs@[m].ident@ != possible_fun@,
            decreases self.extern_rust_funs@.len() - k,
        {
            if strings_equal(&self.extern_rust_funs[k].ident, possible_fun) {
                return true;
            }
            k += 1;
        }
        false
    }

    /// The superclasses of the declared subclasses, each once.
    pub fn superclasses(&self) -> (r: Vec<String>)
        ensures
            forall|s: Seq<char>| #[trigger] seg_views(r@).contains(s) == superclass_set(self.subclasses@).contains(s),
            seg_views(r@).no_duplicates(),
    {
        let mut r: Vec<String> = Vec::new();
        let mut k: usize = 0;
        while k < self.subclasses.len()
            invariant
                k <= self.subclasses@.len(),
                forall|s: Seq<char>| #[trigger] seg_views(r@).contains(s) == superclass_set(self.subclasses@.take(k as int)).contains(s),
                seg_views(r@).no_duplicates(),
            decreases self.subclasses@.len() - k,
        {
            let ghost before = seg_views(r@);
            let sup = &self.subclasses[k].superclass;
            let ghost t = self.subclasses@.take(k as int + 1);
            if !contains_string(&r, sup) {
                let ghost rv = r@;
                r.push(clone_string(sup));
                proof {
                    assert(r@ == rv.push(r@.last()));
                    assert(seg_views(r@) =~= before.push(sup@));
                }
            }
            proof {
                assert(t[k as int] == self.subclasses@[k as int]);
                let prev = self.subclasses@.take(k as int);
                assert forall|x: Seq<char>| #[trigger] seg_views(r@).contains(x) == superclass_set(t).contains(x) by {
                    if superclass_set(t).contains(x) {
                        let m = choose|m: int| 0 <= m < t.len() && #[trigger] t[m].superclass@ == x;
                        if m < k {
                            assert(prev[m].superclass@ == x);
                            assert(superclass_set(prev).contains(x));
                            assert(before.contains(x));
                            let i = choose|i: int| 0 <= i < before.len() && before[i] == x;
                            assert(seg_views(r@)[i] == x);
                        } else {
                            assert(x == sup@);
                            if before.contains(x) {
                                let i = choose|i: int| 0 <= i < before.len() && before[i] == x;
                                assert(seg_views(r@)[i] == x);
                            } else {
                                assert(seg_views(r@)[before.len() as int] == x);
                            }
                        }
                    }
                    if seg_views(r@).contains(x) {
                        let i = choose|i: int| 0 <= i < seg_views(r@).len() && seg_views(r@)[i] == x;
                        if i < before.len() {
                            assert(before[i] == x);
                            assert(before.contains(x));
                            assert(superclass_set(prev).contains(x));
                            let m = choose|m: int| 0 <= m < prev.len() && #[trigger] prev[m].superclass@ == x;
                            assert(t[m].superclass@ == x);
                        } else {
                            assert(t[k as int].superclass@ == x);
                        }
                    }
                }
            }
            k += 1;
        }
        assert(self.subclasses@.take(k as int) =~= self.subclasses@);
        r
    }

    pub fn is_subclass_holder(&self, id: &String) -> (r: bool)
        ensures
            r == self.spec_is_subclass_holder(id@),
    {
        let mut k: usize = 0;
        while k < self.subclasses.len()
            invariant
                k <= self.subclasses@.len(),
                forall|m: int| 0 <= m < k ==> #[trigger] self.subclasses@[m].subclass@ + "Holder"@ != id@,
            decreases self.subclasses@.len() - k,
        {
            if strings_equal(&concat(self.subclasses[k].subclass.as_str(), "Holder"), id) {
                return true;
            }
            k += 1;
        }
        false
    }

    fn is_subclass_cpp(&self, id: &String) -> (r: bool)
        ensures
            r == self.spec_is_subclass_cpp(id@),
    {
        let mut k: usize = 0;
        while k < self.subclasses.len()
            invariant
                k <= self.subclasses@.len(),
                forall|m: int| 0 <= m < k ==> #[trigger] self.subclasses@[m].subclass@ + "Cpp"@ != id@,
            decreases self.subclasses@.len() - k,
        {
            if strings_equal(&concat(self.subclasses[k].subclass.as_str(), "Cpp"), id) {
                return true;
            }
            k += 1;
        }
        false
    }

    /// The file the generated target-language code is written to.
    pub fn get_rs_filename(&self) -> (r: String)
        ensures
            r@ == "autocxx-"@ + self.mod_name_or("ffi-default"@) + "-gen.rs"@,
    {
        let middle = match &self.mod_name {
            Some(n) => clone_string(n),
            None => String::from_str("ffi-default"),
        };
        let head = concat("autocxx-", middle.as_str());
        concat(head.as_str(), "-gen.rs")
    }

    /// Settles the allowlist once every directive has been read: an undecided
    /// list becomes an empty explicit one when `auto_allowlist` is set, and is
    /// an error otherwise.
    pub fn confirm_complete(&mut self, auto_allowlist: bool) -> (r: Result<(), ConfigError>)
        ensures
            r is Err <==> (old(self).allowlist is Unspecified && !auto_allowlist),
            r matches Err(e) ==> e == ConfigError::AllowlistUnspecified,
            r is Err ==> final(self)@ == old(self)@,
            r is Ok ==> final(self)@ == if old(self).allowlist is Unspecified {
                ConfigV { allowlist: AllowV::Specific(Seq::empty()), ..old(self)@ }
            } else {
                old(self)@
            },
    {
        if let Allowlist::Unspecified(_) = &self.allowlist {
            if auto_allowlist {
                let empty: Vec<String> = Vec::new();
                assert(seg_views(empty@) =~= Seq::<Seq<char>>::empty());
                self.allowlist = Allowlist::Specific(empty);
                Ok(())
            } else {
                Err(ConfigError::AllowlistUnspecified)
            }
        } else {
            Ok(())
        }
    }
}

/// Mathematical model of an `Allowlist`.
pub enum AllowV {
    Unspecified(Seq<Seq<char>>),
    All,
    Specific(Seq<Seq<char>>),
}

impl View for Allowlist {
    type V = AllowV;

    open spec fn view(&self) -> AllowV {
        match self {
            Allowlist::Unspecified(v) => AllowV::Unspecified(seg_views(v@)),
            Allowlist::All => AllowV::All,
            Allowlist::Specific(v) => AllowV::Specific(seg_views(v@)),
        }
    }
}

/// Mathematical model of an `IncludeCppConfig`.
pub struct ConfigV {
    pub inclusions: Seq<Seq<char>>,
    pub unsafe_policy: UnsafePolicy,
    pub parse_only: bool,
    pub exclude_impls: bool,
    pub pod_requests: Seq<Seq<char>>,
    pub allowlist: AllowV,
    pub blocklist: Seq<Seq<char>>,
    pub exclude_utilities: bool,
    pub mod_name: Option<Seq<char>>,
    pub rust_types: Seq<Seq<char>>,
    /// Superclass and subclass of each declaration.
    pub subclasses: Seq<(Seq<char>, Seq<char>)>,
    /// Path and identifier of each function.
    pub extern_rust_funs: Seq<(Seq<char>, Seq<char>)>,
}

impl View for IncludeCppConfig {
    type V = ConfigV;

    open spec fn view(&self) -> ConfigV {
        ConfigV {
            inclusions: seg_views(self.inclusions@),
            unsafe_policy: self.unsafe_policy,
            parse_only: self.parse_only,
            exclude_impls: self.exclude_impls,
            pod_requests: seg_views(self.pod_requests@),
            allowlist: self.allowlist@,
            blocklist: seg_views(self.blocklist@),
            exclude_utilities: self.exclude_utilities,
            mod_name: match self.mod_name {
                Some(n) => Some(n@),
                None => None,
            },
            rust_types: seg_views(self.rust_types@),
            subclasses: self.subclasses@.map_values(|sc: Subclass| (sc.superclass@, sc.subclass@)),
            extern_rust_funs: self.extern_rust_funs@.map_values(|f: RustFun| (f.path@, f.ident@)),
        }
    }
}

/// The allowlist after an explicit request for `item`.
pub open spec fn allow_push(a: AllowV, item: Seq<char>) -> Result<AllowV, ConfigError> {
    match a {
        AllowV::All => Err(ConfigError::AllowlistConflict),
        AllowV::Unspecified(v) => Ok(AllowV::Specific(v.push(item))),
        AllowV::Specific(v) => Ok(AllowV::Specific(v.push(item))),
    }
}

/// The allowlist after a request for everything.
pub open spec fn allow_set_all(a: AllowV) -> Result<AllowV, ConfigError> {
    match a {
        AllowV::Specific(_) => Err(ConfigError::AllowlistConflict),
        _ => Ok(AllowV::All),
    }
}

} // verus!
