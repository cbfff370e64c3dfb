use vstd::prelude::*;
use vstd::string::StringExecFns;

verus! {

/// Per-user settings: the variant variables chosen for this project.
pub struct Settings {
    pub variants: Vec<(String, String)>,
}

impl Settings {
    pub fn new() -> (r: Settings)
        ensures
            r.variants.deep_view() == Seq::<(Seq<char>, Seq<char>)>::empty(),
    {
        let r = Settings { variants: Vec::new() };
        proof {
            assert(r.variants.deep_view() =~= Seq::<(Seq<char>, Seq<char>)>::empty());
        }
        r
    }
}

/// Settings resolved across the per-user and per-project files.
pub struct MergedSettings {
    /// Root of a shared storage area for committed containers.
    pub storage_dir: Option<String>,
    /// A cache directory shared between projects.
    pub cache_dir: Option<String>,
    pub shared_cache: bool,
    /// Wait for a running build instead of failing at once.
    pub build_lock_wait: bool,
    /// An explicit uid/gid map overriding the resolver.
    pub uid_map: Option<(Vec<(u32, u32, u32)>, Vec<(u32, u32, u32)>)>,
}

/// The settings files read on startup, in reading order: three
/// per-user files, then the two per-project ones.
pub fn settings_files(home: &Option<String>, project_root: &String, local_vagga: &String) -> (r:
    Vec<String>)
    ensures
        match home {
            Some(h) => r.deep_view() == seq![
                h@ + "/.config/vagga/settings.yaml"@,
                h@ + "/.vagga/settings.yaml"@,
                h@ + "/.vagga.yaml"@,
                project_root@ + "/.vagga.settings.yaml"@,
                local_vagga@ + "/settings.yaml"@,
            ],
            None => r.deep_view() == seq![
                project_root@ + "/.vagga.settings.yaml"@,
                local_vagga@ + "/settings.yaml"@,
            ],
        },
{
    let mut r: Vec<String> = Vec::new();
    if let Some(h) = home {
        r.push(h.clone().concat("/.config/vagga/settings.yaml"));
        r.push(h.clone().concat("/.vagga/settings.yaml"));
        r.push(h.clone().concat("/.vagga.yaml"));
    }
    r.push(project_root.clone().concat("/.vagga.settings.yaml"));
    r.push(local_vagga.clone().concat("/settings.yaml"));
    proof {
        match home {
            Some(h) => {
                assert(r.deep_view() =~~= seq![
                    h@ + "/.config/vagga/settings.yaml"@,
                    h@ + "/.vagga/settings.yaml"@,
                    h@ + "/.vagga.yaml"@,
                    project_root@ + "/.vagga.settings.yaml"@,
                    local_vagga@ + "/settings.yaml"@,
                ]);
            },
            None => {
                assert(r.deep_view() =~~= seq![
                    project_root@ + "/.vagga.settings.yaml"@,
                    local_vagga@ + "/settings.yaml"@,
                ]);
            },
        }
    }
    r
}

/// Decide a `_set_variant` invocation: the variable must be declared in
/// the configuration; the settings file then gets a two-level mapping
/// binding it.
pub fn set_variant(defined: &Vec<String>, key: &String, value: &String) -> (r: Result<
    String,
    String,
>)
    ensures
        match r {
            Ok(yaml) => crate::coordinator::seq_contains(defined.deep_view(), key@) && yaml@
                == "variants:\n  "@ + key@ + ": "@ + value@ + "\n"@,
            Err(e) => !crate::coordinator::seq_contains(defined.deep_view(), key@) && e@
                == "No variable "@ + key@ + " defined"@,
        },
{
    let mut i: usize = 0;
    while i < defined.len()
        invariant
            i <= defined@.len(),
            forall|j: int| 0 <= j < i ==> defined.deep_view()[j] != key@,
        decreases defined@.len() - i,
    {
        proof {
            assert(defined.deep_view()[i as int] == defined@[i as int]@);
        }
        if defined[i].eq(key) {
            let yaml = String::from_str("variants:\n  ").concat(key.as_str()).concat(
                ": ",
            ).concat(value.as_str()).concat("\n");
            proof {
                assert(yaml@ =~= "variants:\n  "@ + key@ + ": "@ + value@ + "\n"@);
            }
            return Ok(yaml);
        }
        i += 1;
    }
    let e = String::from_str("No variable ").concat(key.as_str()).concat(" defined");
    proof {
        assert(e@ =~= "No variable "@ + key@ + " defined"@);
    }
    Err(e)
}

} // verus!
