use vstd::prelude::*;

use crate::names::seg_views;

verus! {

/// The segments joined by `::`, as a path is written.
pub open spec fn joined(segs: Seq<Seq<char>>) -> Seq<char>
    decreases segs.len(),
{
    if segs.len() == 0 {
        Seq::empty()
    } else if segs.len() == 1 {
        segs[0]
    } else {
        joined(segs.drop_last()) + "::"@ + segs.last()
    }
}

/// The generated name a path of consumer code refers to: a path that starts
/// at the generated module `ffi` names what follows it.
pub fn ffi_reference(segments: &Vec<String>) -> (r: Option<String>)
    ensures
        r is Some <==> (segments@.len() > 0 && segments@[0]@ == "ffi"@),
        r matches Some(s) ==> s@ == joined(seg_views(segments@).drop_first()),
{
    if segments.len() == 0 {
        return None;
    }
    let ffi = String::from_str("ffi");
    if !crate::names::strings_equal(&segments[0], &ffi) {
        return None;
    }
    let ghost rest = seg_views(segments@).drop_first();
    let mut r = String::new();
    let mut i: usize = 1;
    while i < segments.len()
        invariant
            1 <= i <= segments@.len(),
            rest == seg_views(segments@).drop_first(),
            r@ == joined(rest.take(i - 1)),
        decreases segments@.len() - i,
    {
        if i > 1 {
            r.append("::");
        }
        r.append(segments[i].as_str());
        proof {
            let t = rest.take(i as int);
            assert(t.drop_last() =~= rest.take(i - 1));
            assert(t.last() == segments@[i as int]@);
            if i == 1 {
                assert(rest.take(0) =~= Seq::<Seq<char>>::empty());
                assert(Seq::<char>::empty() + segments@[1]@ =~= segments@[1]@);
            }
        }
        i += 1;
    }
    assert(rest.take(i - 1) =~= rest);
    Some(r)
}

} // verus!
