use vstd::prelude::*;

verus! {

/// Mathematical model of a qualified name: scope segments and final identifier.
pub struct QualName {
    pub ns: Seq<Seq<char>>,
    pub id: Seq<char>,
}

/// The scope path under which a declaration was found.
#[derive(Debug, PartialEq, Eq)]
pub struct Namespace {
    pub segments: Vec<String>,
}

/// A declaration's identity across nested scopes.
#[derive(Debug, PartialEq, Eq)]
pub struct QualifiedName {
    pub ns: Namespace,
    pub id: String,
}

impl View for Namespace {
    type V = Seq<Seq<char>>;

    open spec fn view(&self) -> Seq<Seq<char>> {
        seg_views(self.segments@)
    }
}

impl View for QualifiedName {
    type V = QualName;

    open spec fn view(&self) -> QualName {
        QualName { ns: self.ns@, id: self.id@ }
    }
}

pub open spec fn seg_views(v: Seq<String>) -> Seq<Seq<char>> {
    v.map_values(|s: String| s@)
}

pub proof fn lemma_seg_views_push(v: Seq<String>, s: String)
    ensures
        seg_views(v.push(s)) == seg_views(v).push(s@),
{
    assert(seg_views(v.push(s)) =~= seg_views(v).push(s@));
}

/// `seg1::seg2::...::` for the given scope path.
pub open spec fn ns_prefix(ns: Seq<Seq<char>>) -> Seq<char>
    decreases ns.len(),
{
    if ns.len() == 0 {
        Seq::empty()
    } else {
        ns_prefix(ns.drop_last()) + ns.last() + seq![':', ':']
    }
}

/// The name as written in the foreign language, `a::b::Id`.
pub open spec fn cpp_name(q: QualName) -> Seq<char> {
    ns_prefix(q.ns) + q.id
}

pub fn clone_string(s: &String) -> (r: String)
    ensures
        r@ == s@,
{
    s.clone()
}

pub fn strings_equal(a: &String, b: &String) -> (r: bool)
    ensures
        r == (a@ == b@),
{
    *a == *b
}

impl Namespace {
    pub fn new(segments: Vec<String>) -> (r: Namespace)
        ensures
            r.segments@ == segments@,
    {
        Namespace { segments }
    }

    pub fn clone_ns(&self) -> (r: Namespace)
        ensures
            r@ == self@,
    {
        let mut segments: Vec<String> = Vec::new();
        let mut i: usize = 0;
        while i < self.segments.len()
            invariant
                i <= self.segments@.len(),
                seg_views(segments@) =~= self@.take(i as int),
            decreases self.segments@.len() - i,
        {
            let ghost before = segments@;
            segments.push(clone_string(&self.segments[i]));
            proof {
                lemma_seg_views_push(before, segments@.last());
                assert(segments@ == before.push(segments@.last()));
                assert(self@.take(i as int + 1) =~= self@.take(i as int).push(self@[i as int]));
            }
            i += 1;
        }
        assert(self@.take(i as int) =~= self@);
        Namespace { segments }
    }

    pub fn equals(&self, other: &Namespace) -> (r: bool)
        ensures
            r == (self@ == other@),
    {
        if self.segments.len() != other.segments.len() {
            return false;
        }
        let mut i: usize = 0;
        while i < self.segments.len()
            invariant
                i <= self.segments@.len(),
                self.segments@.len() == other.segments@.len(),
                self@.take(i as int) =~= other@.take(i as int),
            decreases self.segments@.len() - i,
        {
            if !strings_equal(&self.segments[i], &other.segments[i]) {
                assert(self@[i as int] != other@[i as int]);
                return false;
            }
            i += 1;
            assert(self@.take(i as int) =~= other@.take(i as int));
        }
        assert(self@ =~= self@.take(i as int));
        assert(other@ =~= other@.take(i as int));
        true
    }
}

impl QualifiedName {
    pub fn new(ns: Namespace, id: String) -> (r: QualifiedName)
        ensures
            r@ == (QualName { ns: ns@, id: id@ }),
    {
        QualifiedName { ns, id }
    }

    pub fn get_namespace(&self) -> (r: &Namespace)
        ensures
            r@ == self@.ns,
    {
        &self.ns
    }

    pub fn get_final_ident(&self) -> (r: String)
        ensures
            r@ == self@.id,
    {
        clone_string(&self.id)
    }

    pub fn clone_name(&self) -> (r: QualifiedName)
        ensures
            r@ == self@,
    {
        QualifiedName { ns: self.ns.clone_ns(), id: clone_string(&self.id) }
    }

    pub fn equals(&self, other: &QualifiedName) -> (r: bool)
        ensures
            r == (self@ == other@),
    {
        strings_equal(&self.id, &other.id) && self.ns.equals(&other.ns)
    }

    /// Renders the name as the foreign language writes it, `a::b::Id`.
    pub fn to_cpp_name(&self) -> (r: String)
        ensures
            r@ == cpp_name(self@),
    {
        let mut r = String::new();
        let mut i: usize = 0;
        while i < self.ns.segments.len()
            invariant
                i <= self.ns.segments@.len(),
                r@ == ns_prefix(self@.ns.take(i as int)),
            decreases self.ns.segments@.len() - i,
        {
            r.append(self.ns.segments[i].as_str());
            r.append("::");
            proof {
                reveal_strlit("::");
                let t = self@.ns.take(i as int + 1);
                assert(t.drop_last() =~= self@.ns.take(i as int));
            }
            i += 1;
        }
        assert(self@.ns.take(i as int) =~= self@.ns);
        r.append(self.id.as_str());
        r
    }
}

} // verus!
