use vstd::prelude::*;
use vstd::string::StringExecFns;

use crate::context::BuildContext;
use crate::packages::Package;

verus! {

/// Whether a character sequence begins with the given prefix.
pub open spec fn starts_with(s: Seq<char>, prefix: Seq<char>) -> bool {
    s.len() >= prefix.len() && s.take(prefix.len() as int) == prefix
}

/// The features a pip invocation needs: the toolchain for the python
/// version, and git or mercurial when a requirement is fetched from a
/// VCS url.
pub open spec fn spec_scan_features(ver: u8, pkgs: Seq<Seq<char>>) -> Seq<Package> {
    spec_base_features(ver) + spec_vcs_features(pkgs)
}

/// The toolchain features for one python version.
pub open spec fn spec_base_features(ver: u8) -> Seq<Package> {
    if ver == 2 {
        seq![Package::BuildEssential, Package::Python2, Package::Python2Dev, Package::PipPy2]
    } else {
        seq![Package::BuildEssential, Package::Python3, Package::Python3Dev, Package::PipPy3]
    }
}

/// The VCS features requested by `git+` and `hg+` requirement names.
pub open spec fn spec_vcs_features(pkgs: Seq<Seq<char>>) -> Seq<Package>
    decreases pkgs.len(),
{
    if pkgs.len() == 0 {
        Seq::<Package>::empty()
    } else {
        spec_vcs_features(pkgs.drop_last()) + (if starts_with(pkgs.last(), "git+"@) {
            seq![Package::Git]
        } else if starts_with(pkgs.last(), "hg+"@) {
            seq![Package::Mercurial]
        } else {
            Seq::<Package>::empty()
        })
    }
}

fn str_starts_with(s: &String, prefix: &str) -> (r: bool)
    ensures
        r == starts_with(s@, prefix@),
{
    let n = vstd::string::StrSliceExecFns::unicode_len(prefix);
    let sn = vstd::string::StrSliceExecFns::unicode_len(s.as_str());
    if sn < n {
        return false;
    }
    let head = vstd::string::StrSliceExecFns::substring_char(s.as_str(), 0, n);
    let r = head.to_owned().eq(&prefix.to_owned());
    proof {
        assert(head@ == s@.take(prefix@.len() as int));
    }
    r
}

/// The features a pip install of these packages needs.
pub fn scan_features(ver: u8, pkgs: &Vec<String>) -> (r: Vec<Package>)
    ensures
        r@ == spec_scan_features(ver, pkgs.deep_view()),
{
    let mut res: Vec<Package> = Vec::new();
    res.push(Package::BuildEssential);
    if ver == 2 {
        res.push(Package::Python2);
        res.push(Package::Python2Dev);
        res.push(Package::PipPy2);
    } else {
        res.push(Package::Python3);
        res.push(Package::Python3Dev);
        res.push(Package::PipPy3);
    }
    proof {
        assert(res@ =~= spec_base_features(ver));
        assert(pkgs.deep_view().take(0) =~= Seq::<Seq<char>>::empty());
        assert(res@ =~= spec_base_features(ver) + spec_vcs_features(pkgs.deep_view().take(0)));
    }
    let mut i: usize = 0;
    while i < pkgs.len()
        invariant
            i <= pkgs@.len(),
            res@ == spec_base_features(ver) + spec_vcs_features(pkgs.deep_view().take(i as int)),
        decreases pkgs@.len() - i,
    {
        proof {
            assert(pkgs.deep_view().take(i + 1).drop_last() =~= pkgs.deep_view().take(i as int));
            assert(pkgs.deep_view().take(i + 1).last() == pkgs@[i as int]@);
        }
        if str_starts_with(&pkgs[i], "git+") {
            res.push(Package::Git);
        } else if str_starts_with(&pkgs[i], "hg+") {
            res.push(Package::Mercurial);
        }
        proof {
            assert(res@ =~= spec_base_features(ver) + spec_vcs_features(
                pkgs.deep_view().take(i + 1),
            ));
        }
        i += 1;
    }
    proof {
        assert(pkgs.deep_view().take(pkgs@.len() as int) =~= pkgs.deep_view());
    }
    res
}

/// The fixed head of every pip command line.
pub open spec fn spec_pip_head(ver: u8) -> Seq<Seq<char>> {
    seq![
        if ver == 2 {
            "python2"@
        } else {
            "python3"@
        },
        "-m"@,
        "pip"@,
        "install"@,
        "--ignore-installed"@,
    ]
}

/// The index-url flags: the first url as the index, the rest as extras.
pub open spec fn spec_index_args(urls: Seq<Seq<char>>) -> Seq<Seq<char>> {
    Seq::new(
        urls.len(),
        |i: int|
            (if i == 0 {
                "--index-url="@
            } else {
                "--extra-index-url="@
            }) + urls[i],
    )
}

/// The find-links flags.
pub open spec fn spec_links_args(links: Seq<Seq<char>>) -> Seq<Seq<char>> {
    Seq::new(links.len(), |i: int| "--find-links="@ + links[i])
}

/// The full pip command line a context's settings produce: the fixed
/// head, the configured indexes, the dependency switch, the find-links.
pub open spec fn spec_pip_args(
    index_urls: Seq<Seq<char>>,
    find_links: Seq<Seq<char>>,
    dependencies: bool,
    ver: u8,
) -> Seq<Seq<char>> {
    spec_pip_head(ver) + spec_index_args(index_urls) + (if dependencies {
        Seq::<Seq<char>>::empty()
    } else {
        seq!["--no-deps"@]
    }) + spec_links_args(find_links)
}

/// Build the pip command line for this context: interpreter,
/// `-m pip install --ignore-installed`, the configured index urls, the
/// dependency switch and the find-links, in that order.
pub fn pip_args(ctx: &BuildContext, ver: u8) -> (r: Vec<String>)
    ensures
        r.deep_view() == spec_pip_args(
            ctx.pip_settings.index_urls.deep_view(),
            ctx.pip_settings.find_links.deep_view(),
            ctx.pip_settings.dependencies,
            ver,
        ),
{
    let mut args: Vec<String> = Vec::new();
    if ver == 2 {
        args.push(String::from_str("python2"));
    } else {
        args.push(String::from_str("python3"));
    }
    args.push(String::from_str("-m"));
    args.push(String::from_str("pip"));
    args.push(String::from_str("install"));
    args.push(String::from_str("--ignore-installed"));
    proof {
        assert(args.deep_view() =~~= spec_pip_head(ver));
        assert(ctx.pip_settings.index_urls.deep_view().take(0) =~= Seq::<Seq<char>>::empty());
        assert(spec_index_args(ctx.pip_settings.index_urls.deep_view()).take(0) =~= Seq::<
            Seq<char>,
        >::empty());
        assert(args.deep_view() =~~= spec_pip_head(ver) + spec_index_args(
            ctx.pip_settings.index_urls.deep_view(),
        ).take(0));
    }
    let mut i: usize = 0;
    while i < ctx.pip_settings.index_urls.len()
        invariant
            i <= ctx.pip_settings.index_urls@.len(),
            args.deep_view() == spec_pip_head(ver) + spec_index_args(
                ctx.pip_settings.index_urls.deep_view(),
            ).take(i as int),
        decreases ctx.pip_settings.index_urls@.len() - i,
    {
        let url = &ctx.pip_settings.index_urls[i];
        let ghost a0 = args.deep_view();
        if i == 0 {
            args.push(String::from_str("--index-url=").concat(url.as_str()));
        } else {
            args.push(String::from_str("--extra-index-url=").concat(url.as_str()));
        }
        proof {
            assert(args.deep_view() =~~= a0.push(
                spec_index_args(ctx.pip_settings.index_urls.deep_view())[i as int],
            ));
            assert(args.deep_view() =~~= spec_pip_head(ver) + spec_index_args(
                ctx.pip_settings.index_urls.deep_view(),
            ).take(i + 1));
        }
        i += 1;
    }
    proof {
        assert(spec_index_args(ctx.pip_settings.index_urls.deep_view()).take(
            ctx.pip_settings.index_urls@.len() as int,
        ) =~= spec_index_args(ctx.pip_settings.index_urls.deep_view()));
    }
    let ghost with_index = args.deep_view();
    if !ctx.pip_settings.dependencies {
        args.push(String::from_str("--no-deps"));
        proof {
            assert(args.deep_view() =~~= with_index.push("--no-deps"@));
        }
    }
    let ghost with_deps = args.deep_view();
    proof {
        assert(with_deps =~= spec_pip_head(ver) + spec_index_args(
            ctx.pip_settings.index_urls.deep_view(),
        ) + (if ctx.pip_settings.dependencies {
            Seq::<Seq<char>>::empty()
        } else {
            seq!["--no-deps"@]
        }));
        assert(spec_links_args(ctx.pip_settings.find_links.deep_view()).take(0) =~= Seq::<
            Seq<char>,
        >::empty());
        assert(args.deep_view() =~~= with_deps + spec_links_args(
            ctx.pip_settings.find_links.deep_view(),
        ).take(0));
    }
    let mut i: usize = 0;
    while i < ctx.pip_settings.find_links.len()
        invariant
            i <= ctx.pip_settings.find_links@.len(),
            args.deep_view() == with_deps + spec_links_args(
                ctx.pip_settings.find_links.deep_view(),
            ).take(i as int),
        decreases ctx.pip_settings.find_links@.len() - i,
    {
        let lnk = &ctx.pip_settings.find_links[i];
        let ghost a0 = args.deep_view();
        args.push(String::from_str("--find-links=").concat(lnk.as_str()));
        proof {
            assert(args.deep_view() =~~= a0.push(
                spec_links_args(ctx.pip_settings.find_links.deep_view())[i as int],
            ));
            assert(args.deep_view() =~~= with_deps + spec_links_args(
                ctx.pip_settings.find_links.deep_view(),
            ).take(i + 1));
        }
        i += 1;
    }
    proof {
        assert(spec_links_args(ctx.pip_settings.find_links.deep_view()).take(
            ctx.pip_settings.find_links@.len() as int,
        ) =~= spec_links_args(ctx.pip_settings.find_links.deep_view()));
        assert(args.deep_view() =~= spec_pip_args(
            ctx.pip_settings.index_urls.deep_view(),
            ctx.pip_settings.find_links.deep_view(),
            ctx.pip_settings.dependencies,
            ver,
        ));
    }
    args
}

/// A line of a requirements file that names a package: neither blank
/// nor a comment.
pub open spec fn spec_requirement_line(line: Seq<u8>) -> bool {
    ({
        let t = line.take(crate::textparse::spec_trimmed_len(line));
        t.len() > 0 && t[0] != 35
    })
}

/// The package names in a requirements file: one per line, with blank
/// lines and `#` comments skipped.  Leading whitespace is not
/// stripped, as pip itself rejects indented requirement lines.
pub open spec fn spec_requirements(lines: Seq<Seq<u8>>) -> Seq<Seq<u8>>
    decreases lines.len(),
{
    if lines.len() == 0 {
        Seq::<Seq<u8>>::empty()
    } else {
        spec_requirements(lines.drop_last()) + (if spec_requirement_line(lines.last()) {
            seq![lines.last().take(crate::textparse::spec_trimmed_len(lines.last()))]
        } else {
            Seq::<Seq<u8>>::empty()
        })
    }
}

/// Collect the requirement names from the bytes of a requirements file.
pub fn parse_requirements(data: &Vec<u8>) -> (r: Vec<Vec<u8>>)
    ensures
        r.deep_view() == spec_requirements(crate::textparse::spec_file_lines(data@)),
{
    let lines = crate::textparse::file_lines(data);
    let mut r: Vec<Vec<u8>> = Vec::new();
    let mut i: usize = 0;
    proof {
        assert(lines.deep_view().take(0) =~= Seq::<Seq<u8>>::empty());
        assert(r.deep_view() =~= spec_requirements(lines.deep_view().take(0)));
    }
    while i < lines.len()
        invariant
            i <= lines@.len(),
            lines.deep_view() == crate::textparse::spec_file_lines(data@),
            r.deep_view() == spec_requirements(lines.deep_view().take(i as int)),
        decreases lines@.len() - i,
    {
        proof {
            assert(lines.deep_view().take(i + 1).drop_last() =~= lines.deep_view().take(i as int));
            assert(lines.deep_view().take(i + 1).last() == lines@[i as int]@);
        }
        let trimmed = crate::textparse::trim_end_ws(&lines[i]);
        let ghost r0 = r.deep_view();
        if trimmed.len() > 0 && trimmed[0] != 35 {
            r.push(trimmed);
            proof {
                assert(r.deep_view() =~~= r0.push(lines@[i as int]@.take(
                    crate::textparse::spec_trimmed_len(lines@[i as int]@),
                )));
            }
        }
        proof {
            assert(r.deep_view() =~= spec_requirements(lines.deep_view().take(i + 1)));
        }
        i += 1;
    }
    proof {
        assert(lines.deep_view().take(lines@.len() as int) =~= lines.deep_view());
    }
    r
}

} // verus!
