use vstd::prelude::*;
use vstd::string::StringExecFns;

use crate::coordinator::seq_contains;
use crate::digest::{concat_decimal, dec_chars};
use crate::settings::MergedSettings;

verus! {

/// What a path on disk currently is.
#[derive(Clone, Copy, Debug, PartialEq, Eq, Structural)]
pub enum FsNode {
    Missing,
    Directory,
    Symlink,
    Other,
}

/// Decide how to make sure a directory exists without following a
/// stray symlink: a directory is fine, a missing path is created, and
/// anything else is rejected with a message telling the user what to
/// remove.
pub fn safe_ensure_dir(dir: &String, node: FsNode) -> (r: Result<bool, String>)
    ensures
        match r {
            Ok(create) => (node is Directory && !create) || (node is Missing && create),
            Err(e) => (node is Symlink && e@ == "The `"@ + dir@
                + "` dir can't be a symlink. Please run `unlink "@ + dir@ + "`"@) || (
            node is Other && e@ == "The `"@ + dir@ + "` must be a directory. Please run `unlink "@
                + dir@ + "`"@),
        },
{
    match node {
        FsNode::Directory => Ok(false),
        FsNode::Missing => Ok(true),
        FsNode::Symlink => {
            let e = String::from_str("The `").concat(dir.as_str()).concat(
                "` dir can't be a symlink. Please run `unlink ",
            ).concat(dir.as_str()).concat("`");
            proof {
                assert(e@ =~= "The `"@ + dir@ + "` dir can't be a symlink. Please run `unlink "@
                    + dir@ + "`"@);
            }
            Err(e)
        },
        FsNode::Other => {
            let e = String::from_str("The `").concat(dir.as_str()).concat(
                "` must be a directory. Please run `unlink ",
            ).concat(dir.as_str()).concat("`");
            proof {
                assert(e@ =~= "The `"@ + dir@ + "` must be a directory. Please run `unlink "@
                    + dir@ + "`"@);
            }
            Err(e)
        },
    }
}

/// The directories to ensure before the wrapper can mount its private
/// filesystem: the project's `.vagga` and the mount point inside it,
/// in that order.
pub fn make_mountpoint(project_root: &String) -> (r: Vec<String>)
    ensures
        r.deep_view() == seq![project_root@ + "/.vagga"@, project_root@ + "/.vagga/.mnt"@],
{
    let mut r: Vec<String> = Vec::new();
    r.push(project_root.clone().concat("/.vagga"));
    r.push(project_root.clone().concat("/.vagga/.mnt"));
    proof {
        assert(r.deep_view() =~~= seq![
            project_root@ + "/.vagga"@,
            project_root@ + "/.vagga/.mnt"@,
        ]);
    }
    r
}

/// The candidate name for this project inside a shared storage
/// directory: the project directory's own name, then `name-1` up to
/// `name-100`.
pub open spec fn spec_storage_candidate(name: Seq<char>, i: nat) -> Seq<char> {
    if i == 0 {
        name
    } else {
        name + "-"@ + dec_chars(i)
    }
}

/// The first free candidate at or after index `i`, if any.
pub open spec fn spec_first_free(name: Seq<char>, taken: Seq<Seq<char>>, i: nat) -> Option<
    Seq<char>,
>
    decreases 101 - i,
{
    if i > 100 {
        None
    } else if !seq_contains(taken, spec_storage_candidate(name, i)) {
        Some(spec_storage_candidate(name, i))
    } else {
        spec_first_free(name, taken, i + 1)
    }
}

/// Pick a directory name for this project inside the storage
/// directory: its own name when free, else the first free numbered
/// variant; with a hundred taken, give up.
pub fn create_storage_dir(name: &String, taken: &Vec<String>) -> (r: Result<String, String>)
    ensures
        match r {
            Ok(p) => spec_first_free(name@, taken.deep_view(), 0) == Some(p@),
            Err(e) => spec_first_free(name@, taken.deep_view(), 0) is None && e@
                == "Too many similar paths in the storage dir"@,
        },
{
    let mut i: u64 = 0;
    while i <= 100
        invariant
            i <= 101,
            spec_first_free(name@, taken.deep_view(), 0) == spec_first_free(
                name@,
                taken.deep_view(),
                i as nat,
            ),
        decreases 101 - i,
    {
        let candidate = if i == 0 {
            name.clone()
        } else {
            concat_decimal(name.clone().concat("-"), i)
        };
        proof {
            assert(candidate@ == spec_storage_candidate(name@, i as nat));
        }
        if !crate::context::name_set_contains(taken, &candidate) {
            return Ok(candidate);
        }
        i += 1;
    }
    Err(String::from_str("Too many similar paths in the storage dir"))
}

/// What `.vagga/.lnk` currently points to, if it exists.
pub enum LinkState {
    Missing,
    Points(String),
}

/// Resolve the project's base directory: the plain `.vagga` directory,
/// or — with a storage directory configured — the target of the
/// `.vagga/.lnk` indirection, which must lie inside that storage
/// directory.
pub fn vagga_base(project_root: &String, settings: &MergedSettings, lnk: &LinkState) -> (r: Result<
    Option<String>,
    String,
>)
    ensures
        match settings.storage_dir {
            None => r matches Ok(Some(b)) && b@ == project_root@ + "/.vagga"@,
            Some(dir) => match lnk {
                LinkState::Missing => r matches Ok(b) && b is None,
                LinkState::Points(target) => {
                    if target@.len() > dir@.len() + 1 && target@.take(dir@.len() as int)
                        == dir@ && target@[dir@.len() as int] == '/' {
                        r matches Ok(Some(b)) && b@ == target@
                    } else {
                        r matches Err(e) && e@
                            == "The `.vagga/.lnk` must point inside the storage dir"@
                    }
                },
            },
        },
{
    match &settings.storage_dir {
        None => Ok(Some(project_root.clone().concat("/.vagga"))),
        Some(dir) => match lnk {
            LinkState::Missing => Ok(None),
            LinkState::Points(target) => {
                match crate::path_util::rel_to(target, dir) {
                    Some(rest) => {
                        if rest.as_str().is_empty() {
                            Err(
                                String::from_str(
                                    "The `.vagga/.lnk` must point inside the storage dir",
                                ),
                            )
                        } else {
                            Ok(Some(target.clone()))
                        }
                    },
                    None => Err(
                        String::from_str("The `.vagga/.lnk` must point inside the storage dir"),
                    ),
                }
            },
        },
    }
}

/// Where the shared cache lives: the configured shared directory when
/// one is set, else `.cache` under the project's base directory.
pub fn make_cache_dir(settings: &MergedSettings, vagga_base: &String) -> (r: (String, bool))
    ensures
        match settings.cache_dir {
            Some(dir) => (settings.shared_cache ==> r.0@ == dir@ && !r.1) && (!settings.shared_cache
                ==> r.0@ == vagga_base@ + "/.cache"@ && r.1),
            None => r.0@ == vagga_base@ + "/.cache"@ && r.1,
        },
{
    match &settings.cache_dir {
        Some(dir) if settings.shared_cache => (dir.clone(), false),
        _ => (vagga_base.clone().concat("/.cache"), true),
    }
}


/// One operation of the wrapper's private filesystem setup.
pub enum WrapperOp {
    /// Create a directory with full permissions.
    MkDir(String),
    /// Mount a size-limited tmpfs.
    Tmpfs { target: String, options: String },
    /// Mount a fresh proc filesystem.
    Proc(String),
    /// Bind mount, optionally re-mounted read-only recursively.
    Bind { source: String, target: String, readonly: bool },
    /// Copy one file.
    CopyFile { source: String, target: String },
    /// Pivot into the new root, parking the old one.
    Pivot { new_root: String, old_root: String },
    /// Unmount this path.
    Unmount(String),
}

/// The wrapper's filesystem assembly, in order: a tmpfs mount point,
/// fresh proc, the device tree, the tool's own binaries read-only, the
/// host's name-resolution files, the committed roots, the shared cache,
/// the project work tree, and finally the pivot that makes the new tree
/// the root.
pub fn wrapper_fs_plan(
    project_root: &String,
    local_roots: &String,
    cache_dir: &String,
    self_exe_dir: &String,
) -> (r: Vec<WrapperOp>)
    ensures
        ({
            let mnt = project_root@ + "/.vagga/.mnt"@;
            &&& r@.len() == 20
            &&& (r@[0] matches WrapperOp::Tmpfs { target, options } && target@ == mnt && options@
                == "size=10m"@)
            &&& (r@[1] matches WrapperOp::MkDir(p) && p@ == mnt + "/proc"@)
            &&& (r@[2] matches WrapperOp::Proc(p) && p@ == mnt + "/proc"@)
            &&& (r@[3] matches WrapperOp::MkDir(p) && p@ == mnt + "/dev"@)
            &&& (r@[4] matches WrapperOp::Bind { source, target, readonly } && source@ == "/dev"@
                && target@ == mnt + "/dev"@ && !readonly)
            &&& (r@[5] matches WrapperOp::MkDir(p) && p@ == mnt + "/vagga"@)
            &&& (r@[6] matches WrapperOp::MkDir(p) && p@ == mnt + "/vagga/bin"@)
            &&& (r@[7] matches WrapperOp::Bind { source, target, readonly } && source@
                == self_exe_dir@ && target@ == mnt + "/vagga/bin"@ && readonly)
            &&& (r@[8] matches WrapperOp::MkDir(p) && p@ == mnt + "/etc"@)
            &&& (r@[9] matches WrapperOp::CopyFile { source, target } && source@ == "/etc/hosts"@
                && target@ == mnt + "/etc/hosts"@)
            &&& (r@[10] matches WrapperOp::CopyFile { source, target } && source@
                == "/etc/resolv.conf"@ && target@ == mnt + "/etc/resolv.conf"@)
            &&& (r@[11] matches WrapperOp::MkDir(p) && p@ == mnt + "/vagga/roots"@)
            &&& (r@[12] matches WrapperOp::Bind { source, target, readonly } && source@
                == local_roots@ && target@ == mnt + "/vagga/roots"@ && !readonly)
            &&& (r@[13] matches WrapperOp::MkDir(p) && p@ == mnt + "/vagga/cache"@)
            &&& (r@[14] matches WrapperOp::Bind { source, target, readonly } && source@
                == cache_dir@ && target@ == mnt + "/vagga/cache"@ && !readonly)
            &&& (r@[15] matches WrapperOp::MkDir(p) && p@ == mnt + "/work"@)
            &&& (r@[16] matches WrapperOp::Bind { source, target, readonly } && source@
                == project_root@ && target@ == mnt + "/work"@ && !readonly)
            &&& (r@[17] matches WrapperOp::MkDir(p) && p@ == mnt + "/vagga/old_root"@)
            &&& (r@[18] matches WrapperOp::Pivot { new_root, old_root } && new_root@ == mnt
                && old_root@ == mnt + "/vagga/old_root"@)
            &&& (r@[19] matches WrapperOp::Unmount(p) && p@ == "/vagga/old_root"@)
        }),
{
    let mnt = project_root.clone().concat("/.vagga/.mnt");
    let mut r: Vec<WrapperOp> = Vec::new();
    r.push(WrapperOp::Tmpfs { target: mnt.clone(), options: String::from_str("size=10m") });
    r.push(WrapperOp::MkDir(mnt.clone().concat("/proc")));
    r.push(WrapperOp::Proc(mnt.clone().concat("/proc")));
    r.push(WrapperOp::MkDir(mnt.clone().concat("/dev")));
    r.push(
        WrapperOp::Bind {
            source: String::from_str("/dev"),
            target: mnt.clone().concat("/dev"),
            readonly: false,
        },
    );
    r.push(WrapperOp::MkDir(mnt.clone().concat("/vagga")));
    r.push(WrapperOp::MkDir(mnt.clone().concat("/vagga/bin")));
    r.push(
        WrapperOp::Bind {
            source: self_exe_dir.clone(),
            target: mnt.clone().concat("/vagga/bin"),
            readonly: true,
        },
    );
    r.push(WrapperOp::MkDir(mnt.clone().concat("/etc")));
    r.push(
        WrapperOp::CopyFile {
            source: String::from_str("/etc/hosts"),
            target: mnt.clone().concat("/etc/hosts"),
        },
    );
    r.push(
        WrapperOp::CopyFile {
            source: String::from_str("/etc/resolv.conf"),
            target: mnt.clone().concat("/etc/resolv.conf"),
        },
    );
    r.push(WrapperOp::MkDir(mnt.clone().concat("/vagga/roots")));
    r.push(
        WrapperOp::Bind {
            source: local_roots.clone(),
            target: mnt.clone().concat("/vagga/roots"),
            readonly: false,
        },
    );
    r.push(WrapperOp::MkDir(mnt.clone().concat("/vagga/cache")));
    r.push(
        WrapperOp::Bind {
            source: cache_dir.clone(),
            target: mnt.clone().concat("/vagga/cache"),
            readonly: false,
        },
    );
    r.push(WrapperOp::MkDir(mnt.clone().concat("/work")));
    r.push(
        WrapperOp::Bind {
            source: project_root.clone(),
            target: mnt.clone().concat("/work"),
            readonly: false,
        },
    );
    r.push(WrapperOp::MkDir(mnt.clone().concat("/vagga/old_root")));
    r.push(
        WrapperOp::Pivot {
            new_root: mnt.clone(),
            old_root: mnt.clone().concat("/vagga/old_root"),
        },
    );
    r.push(WrapperOp::Unmount(String::from_str("/vagga/old_root")));
    r
}

} // verus!
