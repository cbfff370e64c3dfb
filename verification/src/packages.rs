use vstd::prelude::*;

verus! {

/// A higher-level dependency that several step handlers may request;
/// the distro resolves features to concrete packages when the build
/// finishes.
#[derive(Clone, Copy, Debug, PartialEq, Eq, Structural)]
pub enum Package {
    BuildEssential,
    Python2,
    Python2Dev,
    PipPy2,
    Python3,
    Python3Dev,
    PipPy3,
    Git,
    Mercurial,
    NodeJs,
    NodeJsDev,
    Npm,
}

/// Insert a feature unless it is already requested.
pub open spec fn spec_feature_insert(s: Seq<Package>, p: Package) -> Seq<Package> {
    if s.contains(p) {
        s
    } else {
        s.push(p)
    }
}

/// Add every feature of `ps` to `s`, in order, without duplicates.
pub open spec fn spec_feature_union(s: Seq<Package>, ps: Seq<Package>) -> Seq<Package>
    decreases ps.len(),
{
    if ps.len() == 0 {
        s
    } else {
        spec_feature_union(spec_feature_insert(s, ps.first()), ps.drop_first())
    }
}

/// Extend a feature list with new features, keeping it duplicate-free.
pub fn add_features(s: &mut Vec<Package>, ps: &Vec<Package>)
    ensures
        final (s)@ == spec_feature_union(old(s)@, ps@),
{
    let mut i: usize = 0;
    proof {
        assert(ps@.skip(0) =~= ps@);
    }
    while i < ps.len()
        invariant
            i <= ps@.len(),
            spec_feature_union(old(s)@, ps@) == spec_feature_union(s@, ps@.skip(i as int)),
        decreases ps@.len() - i,
    {
        proof {
            assert(ps@.skip(i as int).first() == ps@[i as int]);
            assert(ps@.skip(i as int).drop_first() =~= ps@.skip(i + 1));
        }
        let p = ps[i];
        let ghost s0 = s@;
        let mut found = false;
        let mut j: usize = 0;
        while j < s.len()
            invariant
                j <= s@.len(),
                s@ == s0,
                found == exists|k: int| 0 <= k < j && s@[k] == p,
            decreases s@.len() - j,
        {
            if s[j] == p {
                found = true;
            }
            j += 1;
        }
        if !found {
            s.push(p);
        }
        proof {
            assert(s@ == spec_feature_insert(s0, p));
        }
        i += 1;
    }
    proof {
        assert(ps@.skip(ps@.len() as int).len() == 0);
    }
}

} // verus!
