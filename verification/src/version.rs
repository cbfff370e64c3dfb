use vstd::prelude::*;
use vstd::string::StringExecFns;

use crate::digest::{Digest, items_bytes, pairs_bytes, sha256_hex, utf8_bytes};
use crate::steps::{Step, SubSource};

verus! {

/// Outcome of hashing one build step.
pub enum HashResult {
    /// The step contributed deterministic bytes to the digest.
    Hashed,
    /// The step's output depends on an external fetch whose identity is
    /// not known before running; the recipe cannot be versioned yet.
    New,
    /// Versioning itself failed, e.g. on a missing file.
    Error(String),
}

/// Spec-level outcome of hashing one step: the exact bytes it feeds, or
/// the reason it feeds none.
pub enum HashSpec {
    Bytes(Seq<u8>),
    New,
    Failed(Seq<char>),
}

/// External facts the versioner consults: the current uid/gid maps of the
/// process, the identities of already-fetched base images, and the
/// contents of files that steps refer to.
pub struct VersionInput {
    /// Bytes of the process's current uid map file.
    pub uid_map: Vec<u8>,
    /// Bytes of the process's current gid map file.
    pub gid_map: Vec<u8>,
    /// Identity bytes of base images that have been fetched, keyed by a
    /// distro tag such as `ubuntu:focal`.
    pub images: Vec<(String, Vec<u8>)>,
    /// Contents of project files that steps depend on, keyed by path.
    pub work_files: Vec<(String, Vec<u8>)>,
}

/// Look a key up in an association list, returning the first match.
pub open spec fn spec_lookup(m: Seq<(Seq<char>, Seq<u8>)>, k: Seq<char>) -> Option<Seq<u8>>
    decreases m.len(),
{
    if m.len() == 0 {
        None
    } else if m.first().0 == k {
        Some(m.first().1)
    } else {
        spec_lookup(m.drop_first(), k)
    }
}

/// First value bound to `key`, or `None`.
pub fn assoc_find<'a>(m: &'a Vec<(String, Vec<u8>)>, key: &String) -> (r: Option<&'a Vec<u8>>)
    ensures
        match r {
            Some(v) => spec_lookup(m.deep_view(), key@) == Some(v.deep_view()),
            None => spec_lookup(m.deep_view(), key@) is None,
        },
{
    proof {
        assert(m.deep_view().skip(0) =~= m.deep_view());
    }
    let mut i: usize = 0;
    while i < m.len()
        invariant
            i <= m.len(),
            spec_lookup(m.deep_view(), key@) == spec_lookup(m.deep_view().skip(i as int), key@),
        decreases m.len() - i,
    {
        proof {
            assert(m.deep_view()[i as int] == m@[i as int].deep_view());
            assert(m.deep_view().skip(i as int).first() =~= (m@[i as int].0@, m@[i as int].1.deep_view()));
            assert(m.deep_view().skip(i as int).drop_first() =~= m.deep_view().skip(i + 1));
        }
        if m[i].0.eq(key) {
            proof {
                assert(spec_lookup(m.deep_view(), key@) == Some(m@[i as int].1.deep_view()));
            }
            return Some(&m[i].1);
        }
        i += 1;
    }
    proof {
        assert(m.deep_view().skip(m.len() as int).len() == 0);
    }
    None
}

/// Byte framing of a single NUL-terminated item.
pub open spec fn item_frame(v: Seq<char>) -> Seq<u8> {
    utf8_bytes(v) + seq![0u8]
}

/// Byte framing of a key/value field.
pub open spec fn field_frame(k: Seq<char>, v: Seq<char>) -> Seq<u8> {
    utf8_bytes(k) + seq![0u8] + utf8_bytes(v) + seq![0u8]
}

/// Byte framing of a key with raw byte contents.
pub open spec fn bytes_frame(k: Seq<char>, v: Seq<u8>) -> Seq<u8> {
    utf8_bytes(k) + seq![0u8] + v + seq![0u8]
}

/// Byte framing of a key and a list of items.
pub open spec fn seq_frame(k: Seq<char>, items: Seq<Seq<char>>) -> Seq<u8> {
    utf8_bytes(k) + seq![0u8] + items_bytes(items)
}

/// Byte framing of a key and a list of key/value pairs.
pub open spec fn pairs_frame(k: Seq<char>, pairs: Seq<(Seq<char>, Seq<char>)>) -> Seq<u8> {
    utf8_bytes(k) + seq![0u8] + pairs_bytes(pairs)
}

/// The distro-image key under which a fetched base image is recorded.
pub open spec fn spec_image_key(prefix: Seq<char>, version: Seq<char>) -> Seq<char> {
    prefix + version
}

/// What one step feeds into the version digest.
///
/// Steps whose bytes are drawn from the recipe alone always hash.  Steps
/// that bootstrap a base image hash only once the image's identity is
/// known, and report `New` before that.  Steps that read a project file
/// fail when the file is absent.
///
/// The step kinds the versioner has always known — `Sh`, `Cmd`, `Env`,
/// `Remove`, `EmptyDir`, `EnsureDir` — keep their exact historical
/// byte framing, untagged, so existing hashes stay stable; a removed
/// and an emptied directory of the same path therefore still hash
/// alike.  The kinds added since are framed under a variant tag.
pub open spec fn step_hash_spec(
    step: Step,
    images: Seq<(Seq<char>, Seq<u8>)>,
    files: Seq<(Seq<char>, Seq<u8>)>,
) -> HashSpec {
    match step {
        Step::Install(pkgs) => HashSpec::Bytes(seq_frame("Install"@, pkgs.deep_view())),
        Step::BuildDeps(pkgs) => HashSpec::Bytes(seq_frame("BuildDeps"@, pkgs.deep_view())),
        Step::Ubuntu(code) => match spec_lookup(images, spec_image_key("ubuntu:"@, code@)) {
            Some(id) => HashSpec::Bytes(field_frame("Ubuntu"@, code@) + id + seq![0u8]),
            None => HashSpec::New,
        },
        Step::UbuntuRelease(ver) => match spec_lookup(
            images,
            spec_image_key("ubuntu-release:"@, ver@),
        ) {
            Some(id) => HashSpec::Bytes(field_frame("UbuntuRelease"@, ver@) + id + seq![0u8]),
            None => HashSpec::New,
        },
        Step::UbuntuRepo(url) => HashSpec::Bytes(field_frame("UbuntuRepo"@, url@)),
        Step::UbuntuUniverse => HashSpec::Bytes(item_frame("UbuntuUniverse"@)),
        Step::Alpine(ver) => match spec_lookup(images, spec_image_key("alpine:"@, ver@)) {
            Some(id) => HashSpec::Bytes(field_frame("Alpine"@, ver@) + id + seq![0u8]),
            None => HashSpec::New,
        },
        Step::Sh(cmd) => HashSpec::Bytes(item_frame(cmd@)),
        Step::Cmd(argv) => HashSpec::Bytes(items_bytes(argv.deep_view())),
        Step::Env(pairs) => HashSpec::Bytes(pairs_bytes(pairs.deep_view())),
        Step::Remove(path) => HashSpec::Bytes(item_frame(path@)),
        Step::EmptyDir(path) => HashSpec::Bytes(item_frame(path@)),
        Step::EnsureDir(path) => HashSpec::Bytes(item_frame(path@)),
        Step::CacheDirs(pairs) => HashSpec::Bytes(pairs_frame("CacheDirs"@, pairs.deep_view())),
        Step::Depends(path) => match spec_lookup(files, path@) {
            Some(data) => HashSpec::Bytes(bytes_frame("Depends"@, data)),
            None => HashSpec::Failed("No such file: "@ + path@),
        },
        Step::Text(texts) => HashSpec::Bytes(pairs_frame("Text"@, texts.deep_view())),
        Step::Git(url) => HashSpec::Bytes(field_frame("Git"@, url@)),
        Step::GitInstall(url) => HashSpec::Bytes(field_frame("GitInstall"@, url@)),
        Step::Tar(url) => HashSpec::Bytes(field_frame("Tar"@, url@)),
        Step::TarInstall(url) => HashSpec::Bytes(field_frame("TarInstall"@, url@)),
        Step::PipConfig { index_urls, find_links, dependencies } => HashSpec::Bytes(
            seq_frame("PipConfig"@, index_urls.deep_view()) + seq_frame(
                "FindLinks"@,
                find_links.deep_view(),
            ) + utf8_bytes("Deps"@) + seq![0u8] + seq![
                if dependencies {
                    48u8
                } else {
                    49u8
                },
            ],
        ),
        Step::Py2Install(pkgs) => HashSpec::Bytes(seq_frame("Py2Install"@, pkgs.deep_view())),
        Step::Py3Install(pkgs) => HashSpec::Bytes(seq_frame("Py3Install"@, pkgs.deep_view())),
        Step::Py2Requirements(path) => match spec_lookup(files, path@) {
            Some(data) => HashSpec::Bytes(bytes_frame("Py2Requirements"@, data)),
            None => HashSpec::Failed("No such file: "@ + path@),
        },
        Step::Py3Requirements(path) => match spec_lookup(files, path@) {
            Some(data) => HashSpec::Bytes(bytes_frame("Py3Requirements"@, data)),
            None => HashSpec::Failed("No such file: "@ + path@),
        },
        Step::NpmInstall(pkgs) => HashSpec::Bytes(seq_frame("NpmInstall"@, pkgs.deep_view())),
        Step::Container(name) => HashSpec::Bytes(field_frame("Container"@, name@)),
        Step::SubConfig { source, path, container } => HashSpec::Bytes(
            item_frame("SubConfig"@) + match source {
                SubSource::Container(name) => field_frame("Source"@, name@),
                SubSource::Git(url) => field_frame("SourceGit"@, url@),
                SubSource::Directory => item_frame("SourceDir"@),
            } + field_frame("Path"@, path@) + field_frame("SubContainer"@, container@),
        ),
    }
}

/// The trait every versionable recipe element implements: feed the
/// element's identity into the running digest, or say why that cannot be
/// done yet.
pub trait VersionHash {
    /// The bytes this element feeds, or the reason it feeds none.
    spec fn hash_spec(
        &self,
        images: Seq<(Seq<char>, Seq<u8>)>,
        files: Seq<(Seq<char>, Seq<u8>)>,
    ) -> HashSpec;

    fn hash(&self, hash: &mut Digest, inp: &VersionInput) -> (r: HashResult)
        ensures
            match self.hash_spec(inp.images.deep_view(), inp.work_files.deep_view()) {
                HashSpec::Bytes(b) => r is Hashed && final (hash)@ == old(hash)@ + b,
                HashSpec::New => r is New && final (hash)@ == old(hash)@,
                HashSpec::Failed(msg) => (r matches HashResult::Error(m) && m@ == msg) && final (hash)@ == old(hash)@,
            },
    ;
}

/// Hash one image-bootstrapping step: the step's own field plus the
/// image identity when it is known.
fn hash_image_step(
    hash: &mut Digest,
    tag: &str,
    version: &String,
    prefix: &str,
    inp: &VersionInput,
) -> (r: HashResult)
    ensures
        match spec_lookup(inp.images.deep_view(), spec_image_key(prefix@, version@)) {
            Some(id) => r is Hashed && final (hash)@ == old(hash)@ + (field_frame(tag@, version@)
                + id + seq![0u8]),
            None => r is New && final (hash)@ == old(hash)@,
        },
{
    let key = String::from_str(prefix).concat(version.as_str());
    match assoc_find(&inp.images, &key) {
        Some(id) => {
            hash.field_str(tag, version.as_str());
            hash.item(id.as_slice());
            proof {
                assert(hash@ =~= old(hash)@ + (field_frame(tag@, version@) + id.deep_view()
                    + seq![0u8]));
            }
            HashResult::Hashed
        },
        None => HashResult::New,
    }
}

/// Hash one step that embeds the contents of a project file.
fn hash_file_step(hash: &mut Digest, tag: &str, path: &String, inp: &VersionInput) -> (r:
    HashResult)
    ensures
        match spec_lookup(inp.work_files.deep_view(), path@) {
            Some(data) => r is Hashed && final (hash)@ == old(hash)@ + bytes_frame(tag@, data),
            None => (r matches HashResult::Error(m) && m@ == "No such file: "@ + path@) && final (hash)@ == old(hash)@,
        },
{
    match assoc_find(&inp.work_files, path) {
        Some(data) => {
            hash.field(tag, data.as_slice());
            proof {
                assert(hash@ =~= old(hash)@ + bytes_frame(tag@, data.deep_view()));
            }
            HashResult::Hashed
        },
        None => HashResult::Error(String::from_str("No such file: ").concat(path.as_str())),
    }
}


/// Feed a tagged list-of-items step.
fn put_seq(hash: &mut Digest, tag: &str, items: &Vec<String>) -> (r: HashResult)
    ensures
        r is Hashed,
        final (hash)@ == old(hash)@ + seq_frame(tag@, items.deep_view()),
{
    hash.sequence(tag, items);
    proof {
        assert(hash@ =~= old(hash)@ + seq_frame(tag@, items.deep_view()));
    }
    HashResult::Hashed
}

/// Feed a tagged single-value step.
fn put_field(hash: &mut Digest, tag: &str, value: &String) -> (r: HashResult)
    ensures
        r is Hashed,
        final (hash)@ == old(hash)@ + field_frame(tag@, value@),
{
    hash.field_str(tag, value.as_str());
    proof {
        assert(hash@ =~= old(hash)@ + field_frame(tag@, value@));
    }
    HashResult::Hashed
}

/// Feed a bare untagged value, as the historical framing does.
fn put_bare(hash: &mut Digest, value: &String) -> (r: HashResult)
    ensures
        r is Hashed,
        final (hash)@ == old(hash)@ + item_frame(value@),
{
    hash.item_str(value.as_str());
    proof {
        assert(hash@ =~= old(hash)@ + item_frame(value@));
    }
    HashResult::Hashed
}

/// Feed a bare untagged item list.
fn put_bare_items(hash: &mut Digest, items: &Vec<String>) -> (r: HashResult)
    ensures
        r is Hashed,
        final (hash)@ == old(hash)@ + items_bytes(items.deep_view()),
{
    hash.items(items);
    HashResult::Hashed
}

/// Feed a bare untagged pair list.
fn put_bare_pairs(hash: &mut Digest, pairs: &Vec<(String, String)>) -> (r: HashResult)
    ensures
        r is Hashed,
        final (hash)@ == old(hash)@ + pairs_bytes(pairs.deep_view()),
{
    hash.pair_list(pairs);
    HashResult::Hashed
}

/// Feed a bare tag.
fn put_item(hash: &mut Digest, tag: &str) -> (r: HashResult)
    ensures
        r is Hashed,
        final (hash)@ == old(hash)@ + item_frame(tag@),
{
    hash.item_str(tag);
    proof {
        assert(hash@ =~= old(hash)@ + item_frame(tag@));
    }
    HashResult::Hashed
}

/// Feed a tagged list-of-pairs step.
fn put_pairs(hash: &mut Digest, tag: &str, pairs: &Vec<(String, String)>) -> (r: HashResult)
    ensures
        r is Hashed,
        final (hash)@ == old(hash)@ + pairs_frame(tag@, pairs.deep_view()),
{
    hash.pairs(tag, pairs);
    proof {
        assert(hash@ =~= old(hash)@ + pairs_frame(tag@, pairs.deep_view()));
    }
    HashResult::Hashed
}

impl VersionHash for Step {
    open spec fn hash_spec(
        &self,
        images: Seq<(Seq<char>, Seq<u8>)>,
        files: Seq<(Seq<char>, Seq<u8>)>,
    ) -> HashSpec {
        step_hash_spec(*self, images, files)
    }

    #[verifier::rlimit(100)]
    #[verifier::spinoff_prover]
    fn hash(&self, hash: &mut Digest, inp: &VersionInput) -> (r: HashResult) {
        match self {
            Step::Install(pkgs) => put_seq(hash, "Install", pkgs),
            Step::BuildDeps(pkgs) => put_seq(hash, "BuildDeps", pkgs),
            Step::Ubuntu(code) => hash_image_step(hash, "Ubuntu", code, "ubuntu:", inp),
            Step::UbuntuRelease(ver) => hash_image_step(
                hash,
                "UbuntuRelease",
                ver,
                "ubuntu-release:",
                inp,
            ),
            Step::UbuntuRepo(url) => put_field(hash, "UbuntuRepo", url),
            Step::UbuntuUniverse => put_item(hash, "UbuntuUniverse"),
            Step::Alpine(ver) => hash_image_step(hash, "Alpine", ver, "alpine:", inp),
            Step::Sh(cmd) => put_bare(hash, cmd),
            Step::Cmd(argv) => put_bare_items(hash, argv),
            Step::Env(pairs) => put_bare_pairs(hash, pairs),
            Step::Remove(path) => put_bare(hash, path),
            Step::EmptyDir(path) => put_bare(hash, path),
            Step::EnsureDir(path) => put_bare(hash, path),
            Step::CacheDirs(pairs) => put_pairs(hash, "CacheDirs", pairs),
            Step::Depends(path) => hash_file_step(hash, "Depends", path, inp),
            Step::Text(texts) => put_pairs(hash, "Text", texts),
            Step::Git(url) => put_field(hash, "Git", url),
            Step::GitInstall(url) => put_field(hash, "GitInstall", url),
            Step::Tar(url) => put_field(hash, "Tar", url),
            Step::TarInstall(url) => put_field(hash, "TarInstall", url),
            Step::PipConfig { index_urls, find_links, dependencies } => {
                hash.sequence("PipConfig", index_urls);
                hash.sequence("FindLinks", find_links);
                hash.bool("Deps", *dependencies);
                proof {
                    assert(hash@ =~= old(hash)@ + (seq_frame("PipConfig"@, index_urls.deep_view())
                        + seq_frame("FindLinks"@, find_links.deep_view()) + utf8_bytes("Deps"@)
                        + seq![0u8] + seq![
                        if *dependencies {
                            48u8
                        } else {
                            49u8
                        },
                    ]));
                }
                HashResult::Hashed
            },
            Step::Py2Install(pkgs) => put_seq(hash, "Py2Install", pkgs),
            Step::Py3Install(pkgs) => put_seq(hash, "Py3Install", pkgs),
            Step::Py2Requirements(path) => hash_file_step(hash, "Py2Requirements", path, inp),
            Step::Py3Requirements(path) => hash_file_step(hash, "Py3Requirements", path, inp),
            Step::NpmInstall(pkgs) => put_seq(hash, "NpmInstall", pkgs),
            Step::Container(name) => put_field(hash, "Container", name),
            Step::SubConfig { source, path, container } => {
                hash.item_str("SubConfig");
                match source {
                    SubSource::Container(name) => {
                        hash.field_str("Source", name.as_str());
                    },
                    SubSource::Git(url) => {
                        hash.field_str("SourceGit", url.as_str());
                    },
                    SubSource::Directory => {
                        hash.item_str("SourceDir");
                    },
                }
                hash.field_str("Path", path.as_str());
                hash.field_str("SubContainer", container.as_str());
                proof {
                    assert(hash@ =~= old(hash)@ + (item_frame("SubConfig"@) + match *source {
                        SubSource::Container(name) => field_frame("Source"@, name@),
                        SubSource::Git(url) => field_frame("SourceGit"@, url@),
                        SubSource::Directory => item_frame("SourceDir"@),
                    } + field_frame("Path"@, path@) + field_frame("SubContainer"@, container@)));
                }
                HashResult::Hashed
            },
        }
    }
}


/// Spec outcome of walking a whole recipe: the bytes of every step in
/// order, or the first reason the walk stops.
pub enum WalkSpec {
    Done(Seq<u8>),
    New,
    Failed(Seq<char>),
}

/// Prepend already-fed bytes to a walk outcome.
pub open spec fn walk_prepend(bytes: Seq<u8>, w: WalkSpec) -> WalkSpec {
    match w {
        WalkSpec::Done(rest) => WalkSpec::Done(bytes + rest),
        WalkSpec::New => WalkSpec::New,
        WalkSpec::Failed(m) => WalkSpec::Failed(m),
    }
}

/// The bytes a whole recipe feeds into the version digest, walking the
/// steps in order and stopping at the first unversionable step.
pub open spec fn walk_spec(
    steps: Seq<Step>,
    images: Seq<(Seq<char>, Seq<u8>)>,
    files: Seq<(Seq<char>, Seq<u8>)>,
) -> WalkSpec
    decreases steps.len(),
{
    if steps.len() == 0 {
        WalkSpec::Done(Seq::<u8>::empty())
    } else {
        match step_hash_spec(steps.first(), images, files) {
            HashSpec::Bytes(b) => walk_prepend(
                b,
                walk_spec(steps.drop_first(), images, files),
            ),
            HashSpec::New => WalkSpec::New,
            HashSpec::Failed(m) => WalkSpec::Failed(m),
        }
    }
}

/// Walk every step of a recipe, feeding the digest.
///
/// On success the digest has grown by exactly the recipe's bytes; a `New`
/// or `Error` outcome reports the first step that stopped the walk.
pub fn hash_steps(steps: &Vec<Step>, d: &mut Digest, inp: &VersionInput) -> (r: HashResult)
    ensures
        match walk_spec(steps@, inp.images.deep_view(), inp.work_files.deep_view()) {
            WalkSpec::Done(b) => r is Hashed && final (d)@ == old(d)@ + b,
            WalkSpec::New => r is New,
            WalkSpec::Failed(m) => r matches HashResult::Error(e) && e@ == m,
        },
{
    let ghost images = inp.images.deep_view();
    let ghost files = inp.work_files.deep_view();
    let ghost full = walk_spec(steps@, images, files);
    let mut i: usize = 0;
    proof {
        assert(steps@.skip(0) =~= steps@);
        assert(old(d)@ + Seq::<u8>::empty() =~= old(d)@);
        match walk_spec(steps@, images, files) {
            WalkSpec::Done(r2) => {
                assert(Seq::<u8>::empty() + r2 =~= r2);
            },
            WalkSpec::New => {},
            WalkSpec::Failed(_) => {},
        }
    }
    let ghost mut fed = Seq::<u8>::empty();
    while i < steps.len()
        invariant
            i <= steps.len(),
            d@ == old(d)@ + fed,
            walk_spec(steps@, images, files) == walk_prepend(
                fed,
                walk_spec(steps@.skip(i as int), images, files),
            ),
            images == inp.images.deep_view(),
            files == inp.work_files.deep_view(),
        decreases steps.len() - i,
    {
        proof {
            assert(steps@.skip(i as int).first() == steps@[i as int]);
            assert(steps@.skip(i as int).drop_first() =~= steps@.skip(i + 1));
        }
        let ghost before = d@;
        let res = steps[i].hash(d, inp);
        match res {
            HashResult::Hashed => {
                proof {
                    let b = match step_hash_spec(steps@[i as int], images, files) {
                        HashSpec::Bytes(b) => b,
                        _ => Seq::<u8>::empty(),
                    };
                    let rest = walk_spec(steps@.skip(i + 1), images, files);
                    assert(walk_spec(steps@.skip(i as int), images, files) == walk_prepend(
                        b,
                        rest,
                    ));
                    match rest {
                        WalkSpec::Done(r2) => {
                            assert(fed + (b + r2) =~= (fed + b) + r2);
                        },
                        WalkSpec::New => {},
                        WalkSpec::Failed(_) => {},
                    }
                }
                proof {
                    fed = fed + match step_hash_spec(steps@[i as int], images, files) {
                        HashSpec::Bytes(b) => b,
                        _ => Seq::<u8>::empty(),
                    };
                }
                i += 1;
            },
            HashResult::New => {
                return HashResult::New;
            },
            HashResult::Error(e) => {
                return HashResult::Error(e);
            },
        }
    }
    proof {
        assert(steps@.skip(steps.len() as int).len() == 0);
        assert(walk_spec(steps@, images, files) == WalkSpec::Done(fed));
    }
    HashResult::Hashed
}

/// The bytes fed before any step: the process's current uid and gid
/// maps, so that a changed subuid allocation changes the hash.
pub open spec fn version_prefix(uid_map: Seq<u8>, gid_map: Seq<u8>) -> Seq<u8> {
    bytes_frame("uid_map"@, uid_map) + bytes_frame("gid_map"@, gid_map)
}

/// Outcome of versioning a whole recipe.
pub enum VersionOutcome {
    /// The definitive digest: 64 lowercase hex characters.
    Hashed(String),
    /// Some step cannot be versioned before the container is built.
    New,
    /// Versioning failed outright.
    Error(String),
}

/// Version a recipe against the visible inputs: uid/gid maps first, then
/// every step in order.
pub fn recipe_version(steps: &Vec<Step>, inp: &VersionInput) -> (r: VersionOutcome)
    ensures
        match walk_spec(steps@, inp.images.deep_view(), inp.work_files.deep_view()) {
            WalkSpec::Done(b) => r matches VersionOutcome::Hashed(h) && h@ == sha256_hex(
                version_prefix(inp.uid_map.deep_view(), inp.gid_map.deep_view()) + b,
            ) && h@.len() == 64 && (forall|i: int|
                0 <= i < h@.len() ==> crate::digest::is_lower_hex_char(#[trigger] h@[i])),
            WalkSpec::New => r is New,
            WalkSpec::Failed(m) => r matches VersionOutcome::Error(e) && e@ == m,
        },
{
    let mut d = Digest::new();
    d.field("uid_map", inp.uid_map.as_slice());
    d.field("gid_map", inp.gid_map.as_slice());
    proof {
        assert(d@ =~= version_prefix(inp.uid_map.deep_view(), inp.gid_map.deep_view()));
    }
    let ghost prefix = d@;
    match hash_steps(steps, &mut d, inp) {
        HashResult::Hashed => VersionOutcome::Hashed(d.result_str()),
        HashResult::New => VersionOutcome::New,
        HashResult::Error(e) => VersionOutcome::Error(e),
    }
}

/// The exit code the versioner reports: 0 when the hash is known, the
/// sentinel 29 when it is unknown before a build, 1 on failure.
pub fn version_exit_code(r: &VersionOutcome) -> (code: i32)
    ensures
        (r is Hashed) == (code == 0),
        (r is New) == (code == 29),
        (r is Error) == (code == 1),
{
    match r {
        VersionOutcome::Hashed(_) => 0,
        VersionOutcome::New => 29,
        VersionOutcome::Error(_) => 1,
    }
}

/// Law: the recipe hash is deterministic.  The digest fed by a walk is a
/// function of the recipe and of the filesystem-visible inputs alone, so
/// two walks over equal inputs agree — across processes and machines.
pub proof fn lemma_version_deterministic(
    steps1: Seq<Step>,
    steps2: Seq<Step>,
    images1: Seq<(Seq<char>, Seq<u8>)>,
    images2: Seq<(Seq<char>, Seq<u8>)>,
    files1: Seq<(Seq<char>, Seq<u8>)>,
    files2: Seq<(Seq<char>, Seq<u8>)>,
)
    requires
        steps1 == steps2,
        images1 == images2,
        files1 == files2,
    ensures
        walk_spec(steps1, images1, files1) == walk_spec(steps2, images2, files2),
{
}


/// Law: an empty recipe is versionable.  The walk over no steps feeds
/// no bytes and stops nowhere, so the hash is well defined before any
/// build, whatever images or files are visible.
pub proof fn lemma_empty_recipe_versions(
    images: Seq<(Seq<char>, Seq<u8>)>,
    files: Seq<(Seq<char>, Seq<u8>)>,
)
    ensures
        walk_spec(Seq::<Step>::empty(), images, files) == WalkSpec::Done(Seq::<u8>::empty()),
{
}

} // verus!
