use vstd::prelude::*;

verus! {

/// The entries of a directory listing that are not hidden: every name
/// that does not start with a dot, in listing order.
pub open spec fn spec_visible(names: Seq<Seq<char>>) -> Seq<Seq<char>>
    decreases names.len(),
{
    if names.len() == 0 {
        Seq::<Seq<char>>::empty()
    } else {
        spec_visible(names.drop_last()) + (if names.last().len() > 0 && names.last()[0] == '.' {
            Seq::<Seq<char>>::empty()
        } else {
            seq![names.last()]
        })
    }
}

/// Filter a directory listing down to its visible entries.
pub fn read_visible_entries(names: &Vec<String>) -> (r: Vec<String>)
    ensures
        r.deep_view() == spec_visible(names.deep_view()),
{
    let mut r: Vec<String> = Vec::new();
    let mut i: usize = 0;
    proof {
        assert(names.deep_view().take(0) =~= Seq::<Seq<char>>::empty());
        assert(r.deep_view() =~= spec_visible(names.deep_view().take(0)));
    }
    while i < names.len()
        invariant
            i <= names@.len(),
            r.deep_view() == spec_visible(names.deep_view().take(i as int)),
        decreases names@.len() - i,
    {
        proof {
            assert(names.deep_view().take(i + 1).drop_last() =~= names.deep_view().take(i as int));
            assert(names.deep_view().take(i + 1).last() == names@[i as int]@);
        }
        let name = &names[i];
        let ghost r0 = r.deep_view();
        let hidden = if vstd::string::StrSliceExecFns::unicode_len(name.as_str()) > 0 {
            vstd::string::StrSliceExecFns::get_char(name.as_str(), 0) == '.'
        } else {
            false
        };
        if !hidden {
            r.push(name.clone());
            proof {
                assert(r.deep_view() =~~= r0.push(names@[i as int]@));
            }
        }
        proof {
            assert(r.deep_view() =~= spec_visible(names.deep_view().take(i + 1)));
        }
        i += 1;
    }
    proof {
        assert(names.deep_view().take(names@.len() as int) =~= names.deep_view());
    }
    r
}

} // verus!
