use vstd::prelude::*;
use vstd::string::StrSliceExecFns;

verus! {

/// What a cleanup run should touch.
#[derive(Clone, Copy, Debug, PartialEq, Eq, Structural)]
pub enum CleanAction {
    /// Scratch directories of failed or interrupted builds.
    Temporary,
    /// Committed versions the symlinks no longer point to.
    Old,
    /// The whole per-project state.
    Everything,
    /// Containers that are no longer in the configuration.
    Orphans,
}

/// A cleanup across all projects needs a configured storage directory;
/// without one the command is rejected with exit code 2.
pub fn clean_cmd_valid(global: bool, storage_dir_set: bool) -> (r: Result<(), i32>)
    ensures
        (global && !storage_dir_set) == (r matches Err(code) && code == 2),
        !(global && !storage_dir_set) == (r is Ok),
{
    if global && !storage_dir_set {
        Err(2)
    } else {
        Ok(())
    }
}

/// Directory entries of `.roots` that are scratch directories: names
/// beginning with `.tmp`.
pub open spec fn spec_tmp_entries(names: Seq<Seq<char>>) -> Seq<Seq<char>>
    decreases names.len(),
{
    if names.len() == 0 {
        Seq::<Seq<char>>::empty()
    } else {
        spec_tmp_entries(names.drop_last()) + (if crate::pip::starts_with(
            names.last(),
            ".tmp"@,
        ) {
            seq![names.last()]
        } else {
            Seq::<Seq<char>>::empty()
        })
    }
}

/// The scratch directories a temporary-cleanup pass removes: every
/// `.roots` entry whose name starts with `.tmp`.
pub fn clean_temporary_names(entries: &Vec<String>) -> (r: Vec<String>)
    ensures
        r.deep_view() == spec_tmp_entries(entries.deep_view()),
{
    let mut r: Vec<String> = Vec::new();
    let mut i: usize = 0;
    proof {
        assert(entries.deep_view().take(0) =~= Seq::<Seq<char>>::empty());
        assert(r.deep_view() =~= spec_tmp_entries(entries.deep_view().take(0)));
    }
    while i < entries.len()
        invariant
            i <= entries@.len(),
            r.deep_view() == spec_tmp_entries(entries.deep_view().take(i as int)),
        decreases entries@.len() - i,
    {
        proof {
            assert(entries.deep_view().take(i + 1).drop_last() =~= entries.deep_view().take(
                i as int,
            ));
            assert(entries.deep_view().take(i + 1).last() == entries@[i as int]@);
        }
        let name = &entries[i];
        let ghost r0 = r.deep_view();
        let n = name.as_str().unicode_len();
        let is_tmp = if n >= 4 {
            let head = name.as_str().substring_char(0, 4).to_owned();
            head.eq(&String::from_str(".tmp"))
        } else {
            false
        };
        proof {
            reveal_strlit(".tmp");
        }
        if is_tmp {
            r.push(name.clone());
            proof {
                assert(r.deep_view() =~~= r0.push(entries@[i as int]@));
            }
        }
        proof {
            assert(r.deep_view() =~= spec_tmp_entries(entries.deep_view().take(i + 1)));
        }
        i += 1;
    }
    proof {
        assert(entries.deep_view().take(entries@.len() as int) =~= entries.deep_view());
    }
    r
}


/// Directory entries of `.roots` that are obsolete committed versions:
/// visible entries that no container symlink points to.
pub open spec fn spec_old_entries(
    names: Seq<Seq<char>>,
    live: Seq<Seq<char>>,
) -> Seq<Seq<char>>
    decreases names.len(),
{
    if names.len() == 0 {
        Seq::<Seq<char>>::empty()
    } else {
        spec_old_entries(names.drop_last(), live) + (if (names.last().len() > 0
            && names.last()[0] == '.') || crate::coordinator::seq_contains(live, names.last()) {
            Seq::<Seq<char>>::empty()
        } else {
            seq![names.last()]
        })
    }
}

/// The committed versions an old-containers cleanup removes: every
/// visible `.roots` entry whose name no symlink resolves to.  `live`
/// holds the targets of the current container symlinks.
pub fn clean_old_names(entries: &Vec<String>, live: &Vec<String>) -> (r: Vec<String>)
    ensures
        r.deep_view() == spec_old_entries(entries.deep_view(), live.deep_view()),
{
    let mut r: Vec<String> = Vec::new();
    let mut i: usize = 0;
    proof {
        assert(entries.deep_view().take(0) =~= Seq::<Seq<char>>::empty());
        assert(r.deep_view() =~= spec_old_entries(
            entries.deep_view().take(0),
            live.deep_view(),
        ));
    }
    while i < entries.len()
        invariant
            i <= entries@.len(),
            r.deep_view() == spec_old_entries(
                entries.deep_view().take(i as int),
                live.deep_view(),
            ),
        decreases entries@.len() - i,
    {
        proof {
            assert(entries.deep_view().take(i + 1).drop_last() =~= entries.deep_view().take(
                i as int,
            ));
            assert(entries.deep_view().take(i + 1).last() == entries@[i as int]@);
        }
        let name = &entries[i];
        let ghost r0 = r.deep_view();
        let hidden = if name.as_str().unicode_len() > 0 {
            name.as_str().get_char(0) == '.'
        } else {
            false
        };
        if !hidden && !crate::context::name_set_contains(live, name) {
            r.push(name.clone());
            proof {
                assert(r.deep_view() =~~= r0.push(entries@[i as int]@));
            }
        }
        proof {
            assert(r.deep_view() =~= spec_old_entries(
                entries.deep_view().take(i + 1),
                live.deep_view(),
            ));
        }
        i += 1;
    }
    proof {
        assert(entries.deep_view().take(entries@.len() as int) =~= entries.deep_view());
    }
    r
}

} // verus!
