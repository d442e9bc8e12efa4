use vstd::prelude::*;

use crate::config::{
    allow_push, allow_set_all, has_word, parse_policy, tok_views, Allowlist, ArgTok, ConfigError,
    ConfigV, DirectiveArg, IncludeCppConfig, Subclass, UnsafePolicy, AllowV,
};
use crate::names::{clone_string, lemma_seg_views_push, seg_views};

verus! {

/// One directive of the `include_cpp` mini-language: `#include "h"`, or
/// `name!(args)` with the tokens found inside the parentheses.
#[derive(Debug)]
pub struct Directive {
    /// Introduced by `#`.
    pub pound: bool,
    pub name: String,
    pub args: Vec<DirectiveArg>,
}

/// Mathematical model of a `Directive`.
pub struct DirectiveV {
    pub pound: bool,
    pub name: Seq<char>,
    pub args: Seq<ArgTok>,
}

impl View for Directive {
    type V = DirectiveV;

    open spec fn view(&self) -> DirectiveV {
        DirectiveV { pound: self.pound, name: self.name@, args: tok_views(self.args@) }
    }
}

pub open spec fn single_str(args: Seq<ArgTok>) -> Option<Seq<char>> {
    if args.len() == 1 && args[0] is Str {
        Some(args[0]->Str_0)
    } else {
        None
    }
}

pub open spec fn single_ident(args: Seq<ArgTok>) -> Option<Seq<char>> {
    if args.len() == 1 && args[0] is Ident {
        Some(args[0]->Ident_0)
    } else {
        None
    }
}

/// A directive set before any directive is read.
pub open spec fn empty_config() -> ConfigV {
    ConfigV {
        inclusions: Seq::empty(),
        unsafe_policy: UnsafePolicy::AllFunctionsUnsafe,
        parse_only: false,
        exclude_impls: false,
        pod_requests: Seq::empty(),
        allowlist: AllowV::Unspecified(Seq::empty()),
        blocklist: Seq::empty(),
        exclude_utilities: false,
        mod_name: None,
        rust_types: Seq::empty(),
        subclasses: Seq::empty(),
        extern_rust_funs: Seq::empty(),
    }
}

/// What reading the directive `d` does to the directive set `c`.
pub open spec fn apply_directive_spec(c: ConfigV, d: DirectiveV) -> Result<ConfigV, ConfigError> {
    if d.pound {
        if d.name != "include"@ {
            Err(ConfigError::ExpectedInclude)
        } else {
            match single_str(d.args) {
                Some(h) => Ok(ConfigV { inclusions: c.inclusions.push(h), ..c }),
                None => Err(ConfigError::MalformedArguments),
            }
        }
    } else if d.name == "generate"@ {
        match single_str(d.args) {
            Some(s) => match allow_push(c.allowlist, s) {
                Ok(a) => Ok(ConfigV { allowlist: a, ..c }),
                Err(e) => Err(e),
            },
            None => Err(ConfigError::MalformedArguments),
        }
    } else if d.name == "generate_pod"@ {
        match single_str(d.args) {
            Some(s) => match allow_push(c.allowlist, s) {
                Ok(a) => Ok(ConfigV { allowlist: a, pod_requests: c.pod_requests.push(s), ..c }),
                Err(e) => Err(e),
            },
            None => Err(ConfigError::MalformedArguments),
        }
    } else if d.name == "pod"@ {
        match single_str(d.args) {
            Some(s) => Ok(ConfigV { pod_requests: c.pod_requests.push(s), ..c }),
            None => Err(ConfigError::MalformedArguments),
        }
    } else if d.name == "block"@ {
        match single_str(d.args) {
            Some(s) => Ok(ConfigV { blocklist: c.blocklist.push(s), ..c }),
            None => Err(ConfigError::MalformedArguments),
        }
    } else if d.name == "rust_type"@ || d.name == "extern_rust_type"@ {
        match single_ident(d.args) {
            Some(s) => Ok(ConfigV { rust_types: c.rust_types.push(s), ..c }),
            None => Err(ConfigError::MalformedArguments),
        }
    } else if d.name == "subclass"@ {
        if d.args.len() == 3 && d.args[0] is Str && d.args[1] is Comma && d.args[2] is Ident {
            Ok(
                ConfigV {
                    subclasses: c.subclasses.push((d.args[0]->Str_0, d.args[2]->Ident_0)),
                    ..c
                },
            )
        } else {
            Err(ConfigError::MalformedArguments)
        }
    } else if d.name == "parse_only"@ {
        if d.args.len() == 0 {
            Ok(ConfigV { parse_only: true, ..c })
        } else {
            Err(ConfigError::ExpectedNoArguments)
        }
    } else if d.name == "exclude_impls"@ {
        if d.args.len() == 0 {
            Ok(ConfigV { exclude_impls: true, ..c })
        } else {
            Err(ConfigError::ExpectedNoArguments)
        }
    } else if d.name == "generate_all"@ {
        match allow_set_all(c.allowlist) {
            Ok(a) => if d.args.len() == 0 {
                Ok(ConfigV { allowlist: a, ..c })
            } else {
                Err(ConfigError::ExpectedNoArguments)
            },
            Err(e) => Err(e),
        }
    } else if d.name == "name"@ {
        match single_ident(d.args) {
            Some(s) => Ok(ConfigV { mod_name: Some(s), ..c }),
            None => Err(ConfigError::MalformedArguments),
        }
    } else if d.name == "exclude_utilities"@ {
        if d.args.len() == 0 {
            Ok(ConfigV { exclude_utilities: true, ..c })
        } else {
            Err(ConfigError::ExpectedNoArguments)
        }
    } else if d.name == "safety"@ {
        match parse_policy(d.args) {
            Ok(p) => Ok(ConfigV { unsafe_policy: p, ..c }),
            Err(e) => Err(e),
        }
    } else {
        Err(ConfigError::UnknownDirective)
    }
}

/// Reading the directives `ds` in order, from `c`; the first failure stops.
pub open spec fn apply_all(c: ConfigV, ds: Seq<DirectiveV>) -> Result<ConfigV, ConfigError>
    decreases ds.len(),
{
    if ds.len() == 0 {
        Ok(c)
    } else {
        match apply_all(c, ds.drop_last()) {
            Ok(c2) => apply_directive_spec(c2, ds.last()),
            Err(e) => Err(e),
        }
    }
}

pub open spec fn directive_views(ds: Seq<Directive>) -> Seq<DirectiveV> {
    ds.map_values(|d: Directive| d@)
}

proof fn lemma_tok_views_index(v: Seq<DirectiveArg>, i: int)
    requires
        0 <= i < v.len(),
    ensures
        tok_views(v)[i] == v[i]@,
        tok_views(v).len() == v.len(),
{
}

fn single_str_exec(args: &Vec<DirectiveArg>) -> (r: Option<String>)
    ensures
        match single_str(tok_views(args@)) {
            Some(s) => r matches Some(t) && t@ == s,
            None => r is None,
        },
{
    proof {
        if args@.len() > 0 {
            lemma_tok_views_index(args@, 0);
        }
    }
    if args.len() == 1 {
        if let DirectiveArg::Str(s) = &args[0] {
            return Some(clone_string(s));
        }
    }
    None
}

fn single_ident_exec(args: &Vec<DirectiveArg>) -> (r: Option<String>)
    ensures
        match single_ident(tok_views(args@)) {
            Some(s) => r matches Some(t) && t@ == s,
            None => r is None,
        },
{
    proof {
        if args@.len() > 0 {
            lemma_tok_views_index(args@, 0);
        }
    }
    if args.len() == 1 {
        if let DirectiveArg::Ident(s) = &args[0] {
            return Some(clone_string(s));
        }
    }
    None
}

impl IncludeCppConfig {
    /// The directive set before any directive is read.
    pub fn empty() -> (r: IncludeCppConfig)
        ensures
            r@ == empty_config(),
    {
        let r = IncludeCppConfig {
            inclusions: Vec::new(),
            unsafe_policy: UnsafePolicy::AllFunctionsUnsafe,
            parse_only: false,
            exclude_impls: false,
            pod_requests: Vec::new(),
            allowlist: Allowlist::default(),
            blocklist: Vec::new(),
            exclude_utilities: false,
            mod_name: None,
            rust_types: Vec::new(),
            subclasses: Vec::new(),
            extern_rust_funs: Vec::new(),
        };
        proof {
            assert(seg_views(r.inclusions@) =~= Seq::<Seq<char>>::empty());
            assert(seg_views(r.pod_requests@) =~= Seq::<Seq<char>>::empty());
            assert(seg_views(r.blocklist@) =~= Seq::<Seq<char>>::empty());
            assert(seg_views(r.rust_types@) =~= Seq::<Seq<char>>::empty());
            assert(r@.subclasses =~= Seq::<(Seq<char>, Seq<char>)>::empty());
            assert(r@.extern_rust_funs =~= Seq::<(Seq<char>, Seq<char>)>::empty());
        }
        r
    }

    /// Reads one directive into the set.
    pub fn apply_directive(&mut self, d: &Directive) -> (r: Result<(), ConfigError>)
        ensures
            match apply_directive_spec(old(self)@, d@) {
                Ok(c) => r is Ok && final(self)@ == c,
                Err(e) => r == Err::<(), ConfigError>(e),
            },
    {
        let ghost c = self@;
        let ghost args = tok_views(d.args@);
        if d.pound {
            if !has_word(&d.name, "include") {
                return Err(ConfigError::ExpectedInclude);
            }
            match single_str_exec(&d.args) {
                Some(h) => {
                    let ghost before = self.inclusions@;
                    self.inclusions.push(h);
                    proof {
                        lemma_seg_views_push(before, self.inclusions@.last());
                        assert(self.inclusions@ == before.push(self.inclusions@.last()));
                    }
                    Ok(())
                },
                None => Err(ConfigError::MalformedArguments),
            }
        } else if has_word(&d.name, "generate") {
            match single_str_exec(&d.args) {
                Some(s) => self.allowlist.push(s),
                None => Err(ConfigError::MalformedArguments),
            }
        } else if has_word(&d.name, "generate_pod") {
            match single_str_exec(&d.args) {
                Some(s) => {
                    let request = clone_string(&s);
                    match self.allowlist.push(s) {
                        Ok(()) => {
                            let ghost before = self.pod_requests@;
                            self.pod_requests.push(request);
                            proof {
                                lemma_seg_views_push(before, self.pod_requests@.last());
                                assert(self.pod_requests@ == before.push(self.pod_requests@.last()));
                            }
                            Ok(())
                        },
                        Err(e) => Err(e),
                    }
                },
                None => Err(ConfigError::MalformedArguments),
            }
        } else if has_word(&d.name, "pod") {
            match single_str_exec(&d.args) {
                Some(s) => {
                    let ghost before = self.pod_requests@;
                    self.pod_requests.push(s);
                    proof {
                        lemma_seg_views_push(before, self.pod_requests@.last());
                        assert(self.pod_requests@ == before.push(self.pod_requests@.last()));
                    }
                    Ok(())
                },
                None => Err(ConfigError::MalformedArguments),
            }
        } else if has_word(&d.name, "block") {
            match single_str_exec(&d.args) {
                Some(s) => {
                    let ghost before = self.blocklist@;
                    self.blocklist.push(s);
                    proof {
                        lemma_seg_views_push(before, self.blocklist@.last());
                        assert(self.blocklist@ == before.push(self.blocklist@.last()));
                    }
                    Ok(())
                },
                None => Err(ConfigError::MalformedArguments),
            }
        } else if has_word(&d.name, "rust_type") || has_word(&d.name, "extern_rust_type") {
            match single_ident_exec(&d.args) {
                Some(s) => {
                    let ghost before = self.rust_types@;
                    self.rust_types.push(s);
                    proof {
                        lemma_seg_views_push(before, self.rust_types@.last());
                        assert(self.rust_types@ == before.push(self.rust_types@.last()));
                    }
                    Ok(())
                },
                None => Err(ConfigError::MalformedArguments),
            }
        } else if has_word(&d.name, "subclass") {
            proof {
                if d.args@.len() == 3 {
                    lemma_tok_views_index(d.args@, 0);
                    lemma_tok_views_index(d.args@, 1);
                    lemma_tok_views_index(d.args@, 2);
                }
            }
            if d.args.len() == 3 {
                if let DirectiveArg::Str(sup) = &d.args[0] {
                    if let DirectiveArg::Comma = &d.args[1] {
                        if let DirectiveArg::Ident(sub) = &d.args[2] {
                            let ghost before = self.subclasses@;
                            self.subclasses.push(
                                Subclass { superclass: clone_string(sup), subclass: clone_string(sub) },
                            );
                            proof {
                                assert(self.subclasses@ == before.push(self.subclasses@.last()));
                                assert(self@.subclasses =~= c.subclasses.push((sup@, sub@)));
                            }
                            return Ok(());
                        }
                    }
                }
            }
            Err(ConfigError::MalformedArguments)
        } else if has_word(&d.name, "parse_only") {
            if d.args.len() == 0 {
                self.parse_only = true;
                Ok(())
            } else {
                Err(ConfigError::ExpectedNoArguments)
            }
        } else if has_word(&d.name, "exclude_impls") {
            if d.args.len() == 0 {
                self.exclude_impls = true;
                Ok(())
            } else {
                Err(ConfigError::ExpectedNoArguments)
            }
        } else if has_word(&d.name, "generate_all") {
            match self.allowlist.set_all() {
                Ok(()) => if d.args.len() == 0 {
                    Ok(())
                } else {
                    Err(ConfigError::ExpectedNoArguments)
                },
                Err(e) => Err(e),
            }
        } else if has_word(&d.name, "name") {
            match single_ident_exec(&d.args) {
                Some(s) => {
                    self.mod_name = Some(s);
                    Ok(())
                },
                None => Err(ConfigError::MalformedArguments),
            }
        } else if has_word(&d.name, "exclude_utilities") {
            if d.args.len() == 0 {
                self.exclude_utilities = true;
                Ok(())
            } else {
                Err(ConfigError::ExpectedNoArguments)
            }
        } else if has_word(&d.name, "safety") {
            match UnsafePolicy::parse(&d.args) {
                Ok(p) => {
                    self.unsafe_policy = p;
                    Ok(())
                },
                Err(e) => Err(e),
            }
        } else {
            Err(ConfigError::UnknownDirective)
        }
    }

    /// Reads a whole directive set, stopping at the first directive that
    /// cannot be read.
    pub fn parse(directives: &Vec<Directive>) -> (r: Result<IncludeCppConfig, ConfigError>)
        ensures
            match apply_all(empty_config(), directive_views(directives@)) {
                Ok(c) => r matches Ok(cfg) && cfg@ == c,
                Err(e) => r matches Err(e2) && e2 == e,
            },
    {
        let mut config = IncludeCppConfig::empty();
        let mut i: usize = 0;
        while i < directives.len()
            invariant
                i <= directives@.len(),
                apply_all(empty_config(), directive_views(directives@).take(i as int)) == Ok::<
                    ConfigV,
                    ConfigError,
                >(config@),
            decreases directives@.len() - i,
        {
            proof {
                let t = directive_views(directives@).take(i as int + 1);
                assert(t.drop_last() =~= directive_views(directives@).take(i as int));
                assert(t.last() == directives@[i as int]@);
            }
            match config.apply_directive(&directives[i]) {
                Ok(()) => {},
                Err(e) => {
                    proof {
                        let ds = directive_views(directives@);
                        lemma_apply_all_stops(ds, i as int + 1);
                    }
                    return Err(e);
                },
            }
            i += 1;
        }
        assert(directive_views(directives@).take(i as int) =~= directive_views(directives@));
        Ok(config)
    }
}

/// Once reading fails, reading more directives fails in the same way.
proof fn lemma_apply_all_stops(ds: Seq<DirectiveV>, k: int)
    requires
        0 <= k <= ds.len(),
        apply_all(empty_config(), ds.take(k)) is Err,
    ensures
        apply_all(empty_config(), ds) == apply_all(empty_config(), ds.take(k)),
    decreases ds.len() - k,
{
    if k < ds.len() {
        let t = ds.take(k + 1);
        assert(t.drop_last() =~= ds.take(k));
        lemma_apply_all_stops(ds, k + 1);
    } else {
        assert(ds.take(k) =~= ds);
    }
}

} // verus!
