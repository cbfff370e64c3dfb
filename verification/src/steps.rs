use vstd::prelude::*;
use vstd::string::StringExecFns;

verus! {

/// Where a nested configuration is taken from.
#[derive(Clone, Debug)]
pub enum SubSource {
    /// The committed root of another container of this project.
    Container(String),
    /// A git checkout; resolving it is not implemented.
    Git(String),
    /// A path under the project's work directory.
    Directory,
}

/// One tagged operation of a container recipe.
///
/// A recipe is an ordered sequence of steps; every step has a configure
/// effect on the build context, and most have a side effect performed
/// only on a real build.
#[derive(Clone, Debug)]
pub enum Step {
    /// Install packages and keep them in the final container.
    Install(Vec<String>),
    /// Install packages needed only while building.
    BuildDeps(Vec<String>),
    /// Bootstrap an Ubuntu base by codename.
    Ubuntu(String),
    /// Bootstrap an Ubuntu base from an explicit release.
    UbuntuRelease(String),
    /// Add an APT source line.
    UbuntuRepo(String),
    /// Enable the universe repository.
    UbuntuUniverse,
    /// Bootstrap an Alpine base by version.
    Alpine(String),
    /// Run a shell script under `/bin/sh -exc`.
    Sh(String),
    /// Run a command directly.
    Cmd(Vec<String>),
    /// Merge variables into the container environment.
    Env(Vec<(String, String)>),
    /// Remove a directory from the final container.
    Remove(String),
    /// Keep a directory but empty it.
    EmptyDir(String),
    /// Make sure a directory exists in the final container.
    EnsureDir(String),
    /// Bind shared cache directories into the rootfs, path to cache name.
    CacheDirs(Vec<(String, String)>),
    /// Declare a file whose contents the version hash depends on.
    Depends(String),
    /// Write literal files into the rootfs, path to body.
    Text(Vec<(String, String)>),
    /// Clone a git repository.
    Git(String),
    /// Clone and install from a git repository.
    GitInstall(String),
    /// Fetch and unpack a tar archive.
    Tar(String),
    /// Fetch a tar archive and run its installer.
    TarInstall(String),
    /// Configure how pip is invoked.
    PipConfig { index_urls: Vec<String>, find_links: Vec<String>, dependencies: bool },
    /// Install Python 2 packages with pip.
    Py2Install(Vec<String>),
    /// Install Python 3 packages with pip.
    Py3Install(Vec<String>),
    /// Install from a Python 2 requirements file.
    Py2Requirements(String),
    /// Install from a Python 3 requirements file.
    Py3Requirements(String),
    /// Install npm packages.
    NpmInstall(Vec<String>),
    /// Copy the contents of an already-built container root.
    Container(String),
    /// Configure from a nested configuration file.
    SubConfig { source: SubSource, path: String, container: String },
}

impl Step {
    /// The container this step copies from, if any; the coordinator
    /// builds such dependencies first.
    pub fn is_dependent_on(&self) -> (r: Option<&String>)
        ensures
            match r {
                Some(name) => self matches Step::Container(n) && n == name,
                None => !(self matches Step::Container(_)),
            },
    {
        match self {
            Step::Container(name) => Some(name),
            _ => None,
        }
    }
}


/// A string in quotes, as a debugging representation prints it.
/// Embedded quotes are not escaped.
pub open spec fn spec_quoted(s: Seq<char>) -> Seq<char> {
    "\""@ + s + "\""@
}

/// A comma-separated list of quoted strings.
pub open spec fn spec_str_list(items: Seq<Seq<char>>) -> Seq<char>
    decreases items.len(),
{
    if items.len() == 0 {
        Seq::<char>::empty()
    } else if items.len() == 1 {
        spec_quoted(items.last())
    } else {
        spec_str_list(items.drop_last()) + ", "@ + spec_quoted(items.last())
    }
}

/// A comma-separated list of quoted string pairs.
pub open spec fn spec_pair_reprs(pairs: Seq<(Seq<char>, Seq<char>)>) -> Seq<char>
    decreases pairs.len(),
{
    if pairs.len() == 0 {
        Seq::<char>::empty()
    } else if pairs.len() == 1 {
        "("@ + spec_quoted(pairs.last().0) + ", "@ + spec_quoted(pairs.last().1) + ")"@
    } else {
        spec_pair_reprs(pairs.drop_last()) + ", "@ + "("@ + spec_quoted(pairs.last().0) + ", "@
            + spec_quoted(pairs.last().1) + ")"@
    }
}

/// The representation a step is recorded under in the timing log: its
/// variant and its arguments.
pub open spec fn spec_step_repr(step: Step) -> Seq<char> {
    match step {
        Step::Install(p) => "Install(["@ + spec_str_list(p.deep_view()) + "])"@,
        Step::BuildDeps(p) => "BuildDeps(["@ + spec_str_list(p.deep_view()) + "])"@,
        Step::Ubuntu(c) => "Ubuntu("@ + spec_quoted(c@) + ")"@,
        Step::UbuntuRelease(v) => "UbuntuRelease("@ + spec_quoted(v@) + ")"@,
        Step::UbuntuRepo(u) => "UbuntuRepo("@ + spec_quoted(u@) + ")"@,
        Step::UbuntuUniverse => "UbuntuUniverse"@,
        Step::Alpine(v) => "Alpine("@ + spec_quoted(v@) + ")"@,
        Step::Sh(t) => "Sh("@ + spec_quoted(t@) + ")"@,
        Step::Cmd(v) => "Cmd(["@ + spec_str_list(v.deep_view()) + "])"@,
        Step::Env(ps) => "Env(["@ + spec_pair_reprs(ps.deep_view()) + "])"@,
        Step::Remove(p) => "Remove("@ + spec_quoted(p@) + ")"@,
        Step::EmptyDir(p) => "EmptyDir("@ + spec_quoted(p@) + ")"@,
        Step::EnsureDir(p) => "EnsureDir("@ + spec_quoted(p@) + ")"@,
        Step::CacheDirs(ps) => "CacheDirs(["@ + spec_pair_reprs(ps.deep_view()) + "])"@,
        Step::Depends(p) => "Depends("@ + spec_quoted(p@) + ")"@,
        Step::Text(ps) => "Text(["@ + spec_pair_reprs(ps.deep_view()) + "])"@,
        Step::Git(u) => "Git("@ + spec_quoted(u@) + ")"@,
        Step::GitInstall(u) => "GitInstall("@ + spec_quoted(u@) + ")"@,
        Step::Tar(u) => "Tar("@ + spec_quoted(u@) + ")"@,
        Step::TarInstall(u) => "TarInstall("@ + spec_quoted(u@) + ")"@,
        Step::PipConfig { index_urls, find_links, dependencies } => "PipConfig { index_urls: ["@
            + spec_str_list(index_urls.deep_view()) + "], find_links: ["@ + spec_str_list(
            find_links.deep_view(),
        ) + "], dependencies: "@ + (if dependencies {
            "true"@
        } else {
            "false"@
        }) + " }"@,
        Step::Py2Install(p) => "Py2Install(["@ + spec_str_list(p.deep_view()) + "])"@,
        Step::Py3Install(p) => "Py3Install(["@ + spec_str_list(p.deep_view()) + "])"@,
        Step::Py2Requirements(p) => "Py2Requirements("@ + spec_quoted(p@) + ")"@,
        Step::Py3Requirements(p) => "Py3Requirements("@ + spec_quoted(p@) + ")"@,
        Step::NpmInstall(p) => "NpmInstall(["@ + spec_str_list(p.deep_view()) + "])"@,
        Step::Container(n) => "Container("@ + spec_quoted(n@) + ")"@,
        Step::SubConfig { source, path, container } => "SubConfig { source: "@ + (match source {
            SubSource::Container(n) => "Container("@ + spec_quoted(n@) + ")"@,
            SubSource::Git(u) => "Git("@ + spec_quoted(u@) + ")"@,
            SubSource::Directory => "Directory"@,
        }) + ", path: "@ + spec_quoted(path@) + ", container: "@ + spec_quoted(container@)
            + " }"@,
    }
}

fn quoted(s: &String) -> (r: String)
    ensures
        r@ == spec_quoted(s@),
{
    let r = String::from_str("\"").concat(s.as_str()).concat("\"");
    proof {
        assert(r@ =~= spec_quoted(s@));
    }
    r
}

fn str_list(items: &Vec<String>) -> (r: String)
    ensures
        r@ == spec_str_list(items.deep_view()),
{
    let mut r = String::new();
    let mut i: usize = 0;
    proof {
        assert(items.deep_view().take(0) =~= Seq::<Seq<char>>::empty());
        assert(r@ =~= spec_str_list(items.deep_view().take(0)));
    }
    while i < items.len()
        invariant
            i <= items@.len(),
            r@ == spec_str_list(items.deep_view().take(i as int)),
        decreases items@.len() - i,
    {
        proof {
            assert(items.deep_view().take(i + 1).drop_last() =~= items.deep_view().take(i as int));
            assert(items.deep_view().take(i + 1).last() == items@[i as int]@);
        }
        if i > 0 {
            r = r.concat(", ");
        }
        r = r.concat(quoted(&items[i]).as_str());
        proof {
            assert(r@ =~= spec_str_list(items.deep_view().take(i + 1)));
        }
        i += 1;
    }
    proof {
        assert(items.deep_view().take(items@.len() as int) =~= items.deep_view());
    }
    r
}

fn pair_reprs(pairs: &Vec<(String, String)>) -> (r: String)
    ensures
        r@ == spec_pair_reprs(pairs.deep_view()),
{
    let mut r = String::new();
    let mut i: usize = 0;
    proof {
        assert(pairs.deep_view().take(0) =~= Seq::<(Seq<char>, Seq<char>)>::empty());
        assert(r@ =~= spec_pair_reprs(pairs.deep_view().take(0)));
    }
    while i < pairs.len()
        invariant
            i <= pairs@.len(),
            r@ == spec_pair_reprs(pairs.deep_view().take(i as int)),
        decreases pairs@.len() - i,
    {
        proof {
            assert(pairs.deep_view().take(i + 1).drop_last() =~= pairs.deep_view().take(i as int));
            assert(pairs.deep_view().take(i + 1).last() == (pairs@[i as int].0@, pairs@[i as int].1@));
        }
        if i > 0 {
            r = r.concat(", ");
        }
        r = r.concat("(").concat(quoted(&pairs[i].0).as_str()).concat(", ").concat(
            quoted(&pairs[i].1).as_str(),
        ).concat(")");
        proof {
            assert(r@ =~= spec_pair_reprs(pairs.deep_view().take(i + 1)));
        }
        i += 1;
    }
    proof {
        assert(pairs.deep_view().take(pairs@.len() as int) =~= pairs.deep_view());
    }
    r
}

impl Step {
    /// The representation this step is recorded under in the timing
    /// log: its variant and its arguments.
    #[verifier::rlimit(100)]
    #[verifier::spinoff_prover]
    pub fn repr(&self) -> (r: String)
        ensures
            r@ == spec_step_repr(*self),
    {
        let r = match self {
            Step::Install(p) => String::from_str("Install([").concat(
                str_list(p).as_str(),
            ).concat("])"),
            Step::BuildDeps(p) => String::from_str("BuildDeps([").concat(
                str_list(p).as_str(),
            ).concat("])"),
            Step::Ubuntu(c) => String::from_str("Ubuntu(").concat(quoted(c).as_str()).concat(")"),
            Step::UbuntuRelease(v) => String::from_str("UbuntuRelease(").concat(
                quoted(v).as_str(),
            ).concat(")"),
            Step::UbuntuRepo(u) => String::from_str("UbuntuRepo(").concat(
                quoted(u).as_str(),
            ).concat(")"),
            Step::UbuntuUniverse => String::from_str("UbuntuUniverse"),
            Step::Alpine(v) => String::from_str("Alpine(").concat(quoted(v).as_str()).concat(")"),
            Step::Sh(t) => String::from_str("Sh(").concat(quoted(t).as_str()).concat(")"),
            Step::Cmd(v) => String::from_str("Cmd([").concat(str_list(v).as_str()).concat("])"),
            Step::Env(ps) => String::from_str("Env([").concat(pair_reprs(ps).as_str()).concat(
                "])",
            ),
            Step::Remove(p) => String::from_str("Remove(").concat(quoted(p).as_str()).concat(")"),
            Step::EmptyDir(p) => String::from_str("EmptyDir(").concat(quoted(p).as_str()).concat(
                ")",
            ),
            Step::EnsureDir(p) => String::from_str("EnsureDir(").concat(
                quoted(p).as_str(),
            ).concat(")"),
            Step::CacheDirs(ps) => String::from_str("CacheDirs([").concat(
                pair_reprs(ps).as_str(),
            ).concat("])"),
            Step::Depends(p) => String::from_str("Depends(").concat(quoted(p).as_str()).concat(
                ")",
            ),
            Step::Text(ps) => String::from_str("Text([").concat(pair_reprs(ps).as_str()).concat(
                "])",
            ),
            Step::Git(u) => String::from_str("Git(").concat(quoted(u).as_str()).concat(")"),
            Step::GitInstall(u) => String::from_str("GitInstall(").concat(
                quoted(u).as_str(),
            ).concat(")"),
            Step::Tar(u) => String::from_str("Tar(").concat(quoted(u).as_str()).concat(")"),
            Step::TarInstall(u) => String::from_str("TarInstall(").concat(
                quoted(u).as_str(),
            ).concat(")"),
            Step::PipConfig { index_urls, find_links, dependencies } => String::from_str(
                "PipConfig { index_urls: [",
            ).concat(str_list(index_urls).as_str()).concat("], find_links: [").concat(
                str_list(find_links).as_str(),
            ).concat("], dependencies: ").concat(
                if *dependencies {
                    "true"
                } else {
                    "false"
                },
            ).concat(" }"),
            Step::Py2Install(p) => String::from_str("Py2Install([").concat(
                str_list(p).as_str(),
            ).concat("])"),
            Step::Py3Install(p) => String::from_str("Py3Install([").concat(
                str_list(p).as_str(),
            ).concat("])"),
            Step::Py2Requirements(p) => String::from_str("Py2Requirements(").concat(
                quoted(p).as_str(),
            ).concat(")"),
            Step::Py3Requirements(p) => String::from_str("Py3Requirements(").concat(
                quoted(p).as_str(),
            ).concat(")"),
            Step::NpmInstall(p) => String::from_str("NpmInstall([").concat(
                str_list(p).as_str(),
            ).concat("])"),
            Step::Container(n) => String::from_str("Container(").concat(
                quoted(n).as_str(),
            ).concat(")"),
            Step::SubConfig { source, path, container } => {
                let src = match source {
                    SubSource::Container(n) => String::from_str("Container(").concat(
                        quoted(n).as_str(),
                    ).concat(")"),
                    SubSource::Git(u) => String::from_str("Git(").concat(
                        quoted(u).as_str(),
                    ).concat(")"),
                    SubSource::Directory => String::from_str("Directory"),
                };
                String::from_str("SubConfig { source: ").concat(src.as_str()).concat(
                    ", path: ",
                ).concat(quoted(path).as_str()).concat(", container: ").concat(
                    quoted(container).as_str(),
                ).concat(" }")
            },
        };
        proof {
            assert(r@ =~= spec_step_repr(*self));
        }
        r
    }
}

} // verus!
