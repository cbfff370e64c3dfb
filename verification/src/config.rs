use vstd::prelude::*;
use vstd::string::StringExecFns;

use crate::range::Range;
use crate::steps::Step;

verus! {

/// A user-visible command of the project configuration.
pub struct Command {
    pub run: Option<String>,
    pub container: Option<String>,
    pub accepts_arguments: bool,
}

/// A variant variable: its default and the values it may take.
pub struct Variant {
    pub default: Option<String>,
    pub options: Vec<String>,
}

/// One container recipe: its ordered build steps, the id ranges it
/// needs, and its runtime defaults.
pub struct Container {
    pub setup: Vec<Step>,
    pub uids: Vec<Range>,
    pub gids: Vec<Range>,
    /// Garbage-collect obsolete roots when the symlink is repointed.
    pub auto_clean: bool,
    pub environ: Vec<(String, String)>,
    pub shell: Option<Vec<String>>,
    pub default_command: Option<Vec<String>>,
}

/// The parsed project configuration.
pub struct Config {
    pub commands: Vec<(String, Command)>,
    pub containers: Vec<(String, Container)>,
    pub variants: Vec<(String, Variant)>,
}

/// Extra per-file data mounted into a container at run time.
pub struct SnapshotInfo {
    pub size: usize,
    pub owner_uid: Option<u32>,
    pub owner_gid: Option<u32>,
}

/// A directory created inside a tmpfs volume.
pub struct Dir {
    pub mode: u32,
}

/// Parameters of a tmpfs volume.
pub struct TmpfsInfo {
    pub size: usize,
    pub mode: u32,
    pub subdirs: Vec<(String, Dir)>,
}

/// A volume mounted into the running container.
pub enum Volume {
    Tmpfs(TmpfsInfo),
    BindRW(String),
    BindRO(String),
    Empty,
    VaggaBin,
    Snapshot(SnapshotInfo),
    Container(String),
}

/// One tmpfs subdirectory is acceptable when its mode fits the mount
/// flags and its path is relative.
pub open spec fn spec_subdir_ok(sd: (String, Dir)) -> bool {
    sd.1.mode <= 0o1777 && !(sd.0@.len() > 0 && sd.0@[0] == '/')
}

/// Every subdirectory of a tmpfs volume is acceptable.
pub open spec fn spec_subdirs_valid(sds: Seq<(String, Dir)>) -> bool
    decreases sds.len(),
{
    if sds.len() == 0 {
        true
    } else {
        spec_subdirs_valid(sds.drop_last()) && spec_subdir_ok(sds.last())
    }
}

proof fn lemma_subdirs_invalid(sds: Seq<(String, Dir)>, i: int)
    requires
        0 <= i <= sds.len(),
        !spec_subdirs_valid(sds.take(i)),
    ensures
        !spec_subdirs_valid(sds),
    decreases sds.len() - i,
{
    if i < sds.len() {
        assert(sds.take(i + 1).drop_last() =~= sds.take(i));
        lemma_subdirs_invalid(sds, i + 1);
    } else {
        assert(sds.take(i) =~= sds);
    }
}

/// The constraints the configuration reader enforces on a volume:
/// tmpfs modes fit the mount flags, subdirectory paths are relative,
/// bind sources are absolute, and a container volume names one.
pub open spec fn spec_volume_valid(v: Volume) -> bool {
    match v {
        Volume::Tmpfs(info) => info.mode <= 0o1777 && spec_subdirs_valid(info.subdirs@),
        Volume::BindRW(p) => crate::context::abs_path(p@),
        Volume::BindRO(p) => crate::context::abs_path(p@),
        Volume::Container(name) => name@.len() > 0,
        _ => true,
    }
}

/// Check one volume against the reader's constraints.
pub fn volume_validator(v: &Volume) -> (r: bool)
    ensures
        r == spec_volume_valid(*v),
{
    match v {
        Volume::Tmpfs(info) => {
            if info.mode > 0o1777 {
                return false;
            }
            let mut i: usize = 0;
            proof {
                assert(info.subdirs@.take(0) =~= Seq::<(String, Dir)>::empty());
            }
            while i < info.subdirs.len()
                invariant
                    *v == Volume::Tmpfs(*info),
                    i <= info.subdirs@.len(),
                    spec_subdirs_valid(info.subdirs@.take(i as int)),
                decreases info.subdirs@.len() - i,
            {
                proof {
                    assert(info.subdirs@.take(i + 1).drop_last() =~= info.subdirs@.take(i as int));
                    assert(info.subdirs@.take(i + 1).last() == info.subdirs@[i as int]);
                }
                let bad_mode = info.subdirs[i].1.mode > 0o1777;
                let name = &info.subdirs[i].0;
                let absolute = if vstd::string::StrSliceExecFns::unicode_len(name.as_str()) > 0 {
                    vstd::string::StrSliceExecFns::get_char(name.as_str(), 0) == '/'
                } else {
                    false
                };
                if bad_mode || absolute {
                    proof {
                        assert(!spec_subdir_ok(info.subdirs@[i as int]));
                        assert(!spec_subdirs_valid(info.subdirs@.take(i + 1)));
                        lemma_subdirs_invalid(info.subdirs@, i + 1);
                    }
                    return false;
                }
                i += 1;
            }
            proof {
                assert(info.subdirs@.take(info.subdirs@.len() as int) =~= info.subdirs@);
            }
            true
        },
        Volume::BindRW(p) => {
            vstd::string::StrSliceExecFns::unicode_len(p.as_str()) > 0
                && vstd::string::StrSliceExecFns::get_char(p.as_str(), 0) == '/'
        },
        Volume::BindRO(p) => {
            vstd::string::StrSliceExecFns::unicode_len(p.as_str()) > 0
                && vstd::string::StrSliceExecFns::get_char(p.as_str(), 0) == '/'
        },
        Volume::Container(name) => vstd::string::StrSliceExecFns::unicode_len(name.as_str()) > 0,
        _ => true,
    }
}

/// A list of id ranges is valid when every range is closed and no two
/// overlap.
pub open spec fn spec_ranges_valid(rs: Seq<Range>) -> bool {
    (forall|i: int| 0 <= i < rs.len() ==> (#[trigger] rs[i]).start <= rs[i].end) && (forall|
        i: int,
        j: int,
    |
        0 <= i < j < rs.len() ==> (#[trigger] rs[i]).end < (#[trigger] rs[j]).start || rs[j].end
            < rs[i].start)
}

/// Check a container's id range list: closed ranges, no overlaps.
pub fn ranges_valid(rs: &Vec<Range>) -> (r: bool)
    ensures
        r == spec_ranges_valid(rs@),
{
    let mut i: usize = 0;
    while i < rs.len()
        invariant
            i <= rs@.len(),
            forall|j: int| 0 <= j < i ==> (#[trigger] rs@[j]).start <= rs@[j].end,
        decreases rs@.len() - i,
    {
        if rs[i].start > rs[i].end {
            return false;
        }
        i += 1;
    }
    let mut i: usize = 0;
    while i < rs.len()
        invariant
            i <= rs@.len(),
            forall|j: int| 0 <= j < rs@.len() ==> (#[trigger] rs@[j]).start <= rs@[j].end,
            forall|a: int, b: int|
                0 <= a < b < rs@.len() && a < i ==> (#[trigger] rs@[a]).end < (
                #[trigger] rs@[b]).start || rs@[b].end < rs@[a].start,
        decreases rs@.len() - i,
    {
        let mut j: usize = i + 1;
        while j <= rs.len() && j < rs.len()
            invariant
                i < rs@.len(),
                i + 1 <= j <= rs@.len(),
                forall|j2: int| 0 <= j2 < rs@.len() ==> (#[trigger] rs@[j2]).start <= rs@[j2].end,
                forall|a: int, b: int|
                    0 <= a < b < rs@.len() && a < i ==> (#[trigger] rs@[a]).end < (
                    #[trigger] rs@[b]).start || rs@[b].end < rs@[a].start,
                forall|b: int|
                    i < b < j ==> (#[trigger] rs@[b]).start > rs@[i as int].end || rs@[b].end
                        < rs@[i as int].start,
            decreases rs@.len() - j,
        {
            if !(rs[i].end < rs[j].start || rs[j].end < rs[i].start) {
                return false;
            }
            j += 1;
        }
        i += 1;
    }
    true
}

impl Container {
    /// Fill in the default id request: a container that names no
    /// ranges gets `0..65535` for both uids and gids.
    pub fn apply_defaults(&mut self)
        ensures
            final (self).uids@ == (if old(self).uids@.len() == 0 {
                seq![Range { start: 0u32, end: 65535u32 }]
            } else {
                old(self).uids@
            }),
            final (self).gids@ == (if old(self).gids@.len() == 0 {
                seq![Range { start: 0u32, end: 65535u32 }]
            } else {
                old(self).gids@
            }),
            *final (self) == (Container {
                uids: final (self).uids,
                gids: final (self).gids,
                ..*old(self)
            }),
    {
        if self.uids.len() == 0 {
            self.uids.push(Range { start: 0, end: 65535 });
            proof {
                assert(self.uids@ =~= seq![Range { start: 0u32, end: 65535u32 }]);
            }
        }
        if self.gids.len() == 0 {
            self.gids.push(Range { start: 0, end: 65535 });
            proof {
                assert(self.gids@ =~= seq![Range { start: 0u32, end: 65535u32 }]);
            }
        }
    }
}

/// The names of the containers this recipe copies from.
pub open spec fn spec_direct_deps(c: Container) -> Seq<Seq<char>>
    decreases c.setup@.len(),
{
    spec_deps_of(c.setup@)
}

pub open spec fn spec_deps_of(steps: Seq<Step>) -> Seq<Seq<char>>
    decreases steps.len(),
{
    if steps.len() == 0 {
        Seq::<Seq<char>>::empty()
    } else {
        spec_deps_of(steps.drop_last()) + (match steps.last() {
            Step::Container(n) => seq![n@],
            _ => Seq::<Seq<char>>::empty(),
        })
    }
}

/// Collect the containers this recipe copies from, in step order.
pub fn direct_deps(c: &Container) -> (r: Vec<String>)
    ensures
        r.deep_view() == spec_direct_deps(*c),
{
    let mut r: Vec<String> = Vec::new();
    let mut i: usize = 0;
    proof {
        assert(c.setup@.take(0) =~= Seq::<Step>::empty());
        assert(r.deep_view() =~= spec_deps_of(c.setup@.take(0)));
    }
    while i < c.setup.len()
        invariant
            i <= c.setup@.len(),
            r.deep_view() == spec_deps_of(c.setup@.take(i as int)),
        decreases c.setup@.len() - i,
    {
        proof {
            assert(c.setup@.take(i + 1).drop_last() =~= c.setup@.take(i as int));
            assert(c.setup@.take(i + 1).last() == c.setup@[i as int]);
        }
        let ghost r0 = r.deep_view();
        if let Some(name) = c.setup[i].is_dependent_on() {
            r.push(name.clone());
            proof {
                assert(r.deep_view() =~~= r0.push(
                    match c.setup@[i as int] {
                        Step::Container(n) => n@,
                        _ => Seq::<char>::empty(),
                    },
                ));
            }
        }
        proof {
            assert(r.deep_view() =~= spec_deps_of(c.setup@.take(i + 1)));
        }
        i += 1;
    }
    proof {
        assert(c.setup@.take(c.setup@.len() as int) =~= c.setup@);
    }
    r
}


/// The first container bound to `name`.
pub open spec fn spec_find_container(cs: Seq<(String, Container)>, name: Seq<char>) -> Option<
    Container,
>
    decreases cs.len(),
{
    if cs.len() == 0 {
        None
    } else if cs.first().0@ == name {
        Some(cs.first().1)
    } else {
        spec_find_container(cs.drop_first(), name)
    }
}

/// Look a container up by name.
pub fn find_container<'a>(cs: &'a Vec<(String, Container)>, name: &String) -> (r: Option<
    &'a Container,
>)
    ensures
        match r {
            Some(c) => spec_find_container(cs@, name@) == Some(*c),
            None => spec_find_container(cs@, name@) is None,
        },
{
    let mut i: usize = 0;
    proof {
        assert(cs@.skip(0) =~= cs@);
    }
    while i < cs.len()
        invariant
            i <= cs@.len(),
            spec_find_container(cs@, name@) == spec_find_container(cs@.skip(i as int), name@),
        decreases cs@.len() - i,
    {
        proof {
            assert(cs@.skip(i as int).first() == cs@[i as int]);
            assert(cs@.skip(i as int).drop_first() =~= cs@.skip(i + 1));
        }
        if cs[i].0.eq(name) {
            return Some(&cs[i].1);
        }
        i += 1;
    }
    proof {
        assert(cs@.skip(cs@.len() as int).len() == 0);
    }
    None
}

/// The dependency is scheduled strictly before position `k`.
pub open spec fn dep_scheduled(order: Seq<Seq<char>>, k: int, dep: Seq<char>) -> bool {
    exists|m: int| 0 <= m < k && order[m] == dep
}

/// A build order is dependency-consistent when every container in it
/// has each of its subcontainer dependencies scheduled strictly
/// earlier.
pub open spec fn topo_ok(cs: Seq<(String, Container)>, order: Seq<Seq<char>>) -> bool {
    forall|k: int|
        0 <= k < order.len() ==> match spec_find_container(cs, #[trigger] order[k]) {
            Some(c) => forall|d: int|
                0 <= d < spec_direct_deps(c).len() ==> dep_scheduled(
                    order,
                    k,
                    #[trigger] spec_direct_deps(c)[d],
                ),
            None => true,
        }
}


/// The scheduling algorithm in spec form: schedule `name` after its
/// dependencies, reusing anything already in `acc`.  This pins exactly
/// when scheduling succeeds, so `build_order` cannot fail on a
/// schedulable configuration.
pub open spec fn spec_order(
    cs: Seq<(String, Container)>,
    name: Seq<char>,
    fuel: nat,
    acc: Seq<Seq<char>>,
) -> Result<Seq<Seq<char>>, Seq<char>>
    decreases fuel, 0int,
{
    if crate::coordinator::seq_contains(acc, name) {
        Ok(acc)
    } else if fuel == 0 {
        Err("Subcontainer dependency cycle"@)
    } else {
        match spec_find_container(cs, name) {
            None => Err("Subcontainer not found"@),
            Some(c) => match spec_order_list(cs, spec_direct_deps(c), (fuel - 1) as nat, acc) {
                Err(e) => Err(e),
                Ok(acc2) => Ok(crate::context::spec_set_insert(acc2, name)),
            },
        }
    }
}

/// Schedule every name of a dependency list in order.
pub open spec fn spec_order_list(
    cs: Seq<(String, Container)>,
    names: Seq<Seq<char>>,
    fuel: nat,
    acc: Seq<Seq<char>>,
) -> Result<Seq<Seq<char>>, Seq<char>>
    decreases fuel, names.len() + 1,
{
    if names.len() == 0 {
        Ok(acc)
    } else {
        match spec_order(cs, names.first(), fuel, acc) {
            Err(e) => Err(e),
            Ok(acc2) => spec_order_list(cs, names.drop_first(), fuel, acc2),
        }
    }
}

/// Schedule `name` and, first, every container it copies from.
///
/// The resulting order is dependency-consistent: a container always
/// comes after the containers its recipe copies from.  A dependency
/// chain longer than the fuel — in particular, any dependency cycle —
/// is rejected, as is a reference to an unknown container.
pub fn build_order(
    cs: &Vec<(String, Container)>,
    name: &String,
    fuel: usize,
    order: &mut Vec<String>,
) -> (r: Result<(), String>)
    requires
        topo_ok(cs@, old(order).deep_view()),
    ensures
        match r {
            Ok(()) => {
                &&& spec_order(cs@, name@, fuel as nat, old(order).deep_view()) == Ok::<
                    Seq<Seq<char>>,
                    Seq<char>,
                >(final (order).deep_view())
                &&& topo_ok(cs@, final (order).deep_view())
                &&& final (order).deep_view().len() >= old(order).deep_view().len()
                &&& final (order).deep_view().take(old(order).deep_view().len() as int) == old(
                    order,
                ).deep_view()
                &&& crate::coordinator::seq_contains(final (order).deep_view(), name@)
            },
            Err(e) => spec_order(cs@, name@, fuel as nat, old(order).deep_view()) == Err::<
                Seq<Seq<char>>,
                Seq<char>,
            >(e@),
        },
    decreases fuel,
{
    let ghost orig = order.deep_view();
    if crate::context::name_set_contains(order, name) {
        proof {
            assert(order.deep_view().take(orig.len() as int) =~= orig);
        }
        return Ok(());
    }
    if fuel == 0 {
        return Err(String::from_str("Subcontainer dependency cycle"));
    }
    let cont = match find_container(cs, name) {
        Some(c) => c,
        None => {
            return Err(String::from_str("Subcontainer not found"));
        },
    };
    let deps = direct_deps(cont);
    let mut i: usize = 0;
    proof {
        assert(deps.deep_view().skip(0) =~= deps.deep_view());
    }
    while i < deps.len()
        invariant
            fuel >= 1,
            i <= deps@.len(),
            old(order).deep_view() == orig,
            !crate::coordinator::seq_contains(orig, name@),
            deps.deep_view() == spec_direct_deps(*cont),
            spec_find_container(cs@, name@) == Some(*cont),
            spec_order(cs@, name@, fuel as nat, orig) == match spec_order_list(
                cs@,
                deps.deep_view().skip(i as int),
                (fuel - 1) as nat,
                order.deep_view(),
            ) {
                Err(e) => Err(e),
                Ok(acc2) => Ok(crate::context::spec_set_insert(acc2, name@)),
            },
            topo_ok(cs@, order.deep_view()),
            order.deep_view().len() >= orig.len(),
            order.deep_view().take(orig.len() as int) == orig,
            forall|j: int|
                0 <= j < i ==> crate::coordinator::seq_contains(
                    order.deep_view(),
                    #[trigger] deps.deep_view()[j],
                ),
        decreases deps@.len() - i,
    {
        let ghost o0 = order.deep_view();
        proof {
            assert(deps.deep_view().skip(i as int).first() == deps.deep_view()[i as int]);
            assert(deps.deep_view().skip(i as int).drop_first() =~= deps.deep_view().skip(i + 1));
        }
        let res = build_order(cs, &deps[i], fuel - 1, order);
        if let Err(e) = res {
            proof {
                assert(spec_order(cs@, deps.deep_view()[i as int], (fuel - 1) as nat, o0)
                    == Err::<Seq<Seq<char>>, Seq<char>>(e@));
                assert(spec_order_list(cs@, deps.deep_view().skip(i as int), (fuel - 1) as nat, o0)
                    == Err::<Seq<Seq<char>>, Seq<char>>(e@));
                assert(spec_order(cs@, name@, fuel as nat, orig) == Err::<
                    Seq<Seq<char>>,
                    Seq<char>,
                >(e@));
            }
            return Err(e);
        }
        proof {
            assert(deps.deep_view()[i as int] == deps@[i as int]@);
            // the prefix of this call's entry state is preserved
            assert(order.deep_view().take(o0.len() as int) == o0);
            assert(order.deep_view().take(orig.len() as int) =~= orig);
            assert forall|j: int|
                0 <= j < i + 1 implies crate::coordinator::seq_contains(
                order.deep_view(),
                #[trigger] deps.deep_view()[j],
            ) by {
                if j < i {
                    assert(crate::coordinator::seq_contains(o0, deps.deep_view()[j]));
                    let m = choose|m: int| 0 <= m < o0.len() && o0[m] == deps.deep_view()[j];
                    assert(order.deep_view()[m] == o0[m]);
                } else {
                    assert(crate::coordinator::seq_contains(
                        order.deep_view(),
                        deps.deep_view()[i as int],
                    ));
                }
            }
        }
        i += 1;
    }
    proof {
        assert(deps.deep_view().skip(deps@.len() as int).len() == 0);
        assert(spec_order(cs@, name@, fuel as nat, orig) == Ok::<Seq<Seq<char>>, Seq<char>>(
            crate::context::spec_set_insert(order.deep_view(), name@),
        ));
    }
    if !crate::context::name_set_contains(order, name) {
        let ghost o0 = order.deep_view();
        order.push(name.clone());
        proof {
            assert(order.deep_view() =~~= o0.push(name@));
            assert(order.deep_view()[o0.len() as int] == name@);
            assert forall|k: int|
                0 <= k < order.deep_view().len() implies match spec_find_container(
                cs@,
                #[trigger] order.deep_view()[k],
            ) {
                Some(c) => forall|d: int|
                    0 <= d < spec_direct_deps(c).len() ==> dep_scheduled(
                        order.deep_view(),
                        k,
                        #[trigger] spec_direct_deps(c)[d],
                    ),
                None => true,
            } by {
                if k < o0.len() {
                    assert(order.deep_view()[k] == o0[k]);
                    match spec_find_container(cs@, o0[k]) {
                        Some(c) => {
                            assert forall|d: int|
                                0 <= d < spec_direct_deps(c).len() implies dep_scheduled(
                                order.deep_view(),
                                k,
                                #[trigger] spec_direct_deps(c)[d],
                            ) by {
                                assert(dep_scheduled(o0, k, spec_direct_deps(c)[d]));
                                let m = choose|m: int|
                                    0 <= m < k && o0[m] == spec_direct_deps(c)[d];
                                assert(order.deep_view()[m] == o0[m]);
                            }
                        },
                        None => {},
                    }
                } else {
                    assert(order.deep_view()[k] == name@);
                    assert forall|d: int|
                        0 <= d < spec_direct_deps(*cont).len() implies dep_scheduled(
                        order.deep_view(),
                        k,
                        #[trigger] spec_direct_deps(*cont)[d],
                    ) by {
                        assert(crate::coordinator::seq_contains(o0, spec_direct_deps(*cont)[d]));
                        let m = choose|m: int|
                            0 <= m < o0.len() && o0[m] == spec_direct_deps(*cont)[d];
                        assert(order.deep_view()[m] == o0[m]);
                    }
                }
            }
            assert(order.deep_view().take(orig.len() as int) =~= orig);
        }
    }
    Ok(())
}


/// Index of the last slash in a path, or a negative value when there
/// is none.
pub open spec fn spec_last_slash(s: Seq<char>) -> int
    decreases s.len(),
{
    if s.len() == 0 {
        -1
    } else if s.last() == '/' {
        s.len() - 1
    } else {
        spec_last_slash(s.drop_last())
    }
}

proof fn lemma_last_slash_bound(s: Seq<char>)
    ensures
        spec_last_slash(s) < s.len(),
    decreases s.len(),
{
    if s.len() > 0 && s.last() != '/' {
        lemma_last_slash_bound(s.drop_last());
    }
}

/// The directory holding the configuration for this working
/// directory: the nearest ancestor with `.vagga/vagga.yaml` or
/// `vagga.yaml`, searched upward to the filesystem root.
pub open spec fn spec_find_config(dir: Seq<char>, existing: Seq<Seq<char>>) -> Option<
    (Seq<char>, Seq<char>),
>
    decreases dir.len(),
{
    if crate::coordinator::seq_contains(existing, dir + "/.vagga/vagga.yaml"@) {
        Some((dir, dir + "/.vagga/vagga.yaml"@))
    } else if crate::coordinator::seq_contains(existing, dir + "/vagga.yaml"@) {
        Some((dir, dir + "/vagga.yaml"@))
    } else if dir.len() == 0 {
        None
    } else {
        let j = spec_last_slash(dir);
        if j < 0 || j >= dir.len() {
            None
        } else {
            spec_find_config(dir.take(j), existing)
        }
    }
}

/// Find the configuration file for a working directory, walking up
/// through its ancestors.  `existing` lists the configuration files
/// that are present on disk.
pub fn find_config_path(work_dir: &String, existing: &Vec<String>) -> (r: Option<
    (String, String),
>)
    ensures
        match r {
            Some(pair) => spec_find_config(work_dir@, existing.deep_view()) == Some(
                (pair.0@, pair.1@),
            ),
            None => spec_find_config(work_dir@, existing.deep_view()) is None,
        },
{
    let mut dir = work_dir.clone();
    loop
        invariant
            spec_find_config(work_dir@, existing.deep_view()) == spec_find_config(
                dir@,
                existing.deep_view(),
            ),
        decreases dir@.len(),
    {
        let hidden = dir.clone().concat("/.vagga/vagga.yaml");
        if crate::context::name_set_contains(existing, &hidden) {
            return Some((dir, hidden));
        }
        let plain = dir.clone().concat("/vagga.yaml");
        if crate::context::name_set_contains(existing, &plain) {
            return Some((dir, plain));
        }
        let n = vstd::string::StrSliceExecFns::unicode_len(dir.as_str());
        if n == 0 {
            return None;
        }
        let mut k: usize = n;
        proof {
            assert(dir@.take(n as int) =~= dir@);
        }
        while k > 0 && vstd::string::StrSliceExecFns::get_char(dir.as_str(), k - 1) != '/'
            invariant
                k <= n,
                n == dir@.len(),
                spec_last_slash(dir@) == spec_last_slash(dir@.take(k as int)),
            decreases k,
        {
            proof {
                assert(dir@.take(k as int).last() == dir@[k - 1]);
                assert(dir@.take(k as int).drop_last() =~= dir@.take(k - 1));
            }
            k -= 1;
        }
        if k == 0 {
            proof {
                assert(dir@.take(0).len() == 0);
                assert(spec_last_slash(dir@) < 0);
            }
            return None;
        }
        proof {
            assert(dir@.take(k as int).last() == dir@[k - 1]);
            assert(spec_last_slash(dir@) == k - 1);
            lemma_last_slash_bound(dir@);
        }
        dir = vstd::string::StrSliceExecFns::substring_char(dir.as_str(), 0, k - 1).to_owned();
    }
}

} // verus!
