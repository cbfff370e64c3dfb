use vagga::digest::{Digest, FileInfo, FileKind};
use vagga::download::download_cache_name;
use vagga::steps::Step;
use vagga::version::{
    recipe_version, version_exit_code, HashResult, VersionHash, VersionInput, VersionOutcome,
};

fn empty_input() -> VersionInput {
    VersionInput { uid_map: Vec::new(), gid_map: Vec::new(), images: Vec::new(), work_files: Vec::new() }
}

fn ug_input() -> VersionInput {
    VersionInput {
        uid_map: b"U".to_vec(),
        gid_map: b"G".to_vec(),
        images: Vec::new(),
        work_files: Vec::new(),
    }
}

#[test]
fn empty_digest_is_sha256_of_nothing() {
    let d = Digest::new();
    assert_eq!(
        d.result_str(),
        "e3b0c44298fc1c149afbf4c8996fb92427ae41e4649b934ca495991b7852b855"
    );
}

#[test]
fn item_appends_value_and_nul() {
    let mut d = Digest::new();
    d.item(b"abc");
    assert_eq!(
        d.result_str(),
        "dc1114cd074914bd872cc1f9a23ec910ea2203bc79779ab2e17da25782a624fc"
    );
}

#[test]
fn field_appends_key_and_value() {
    let mut d = Digest::new();
    d.field("k", b"v");
    assert_eq!(
        d.result_str(),
        "ceb95195e67f3cc7081bc7a57bc8cb8c774113515abd080a805fee25b5b15813"
    );
}

#[test]
fn text_formats_decimal() {
    let mut d = Digest::new();
    d.text("uid", 1000);
    assert_eq!(
        d.result_str(),
        "29cf6b48f5026bbf9e14d5d027a350fb077b83c930d32c16e0035688fb86a3fa"
    );
}

#[test]
fn bool_encoding_is_inverted() {
    // the historical encoding: true is '0', false is '1'
    let mut d = Digest::new();
    d.bool("k", true);
    assert_eq!(
        d.result_str(),
        "1c63409b61691a2d0352b94f57db960779090b1869840f78ac267634f2dde449"
    );
    let mut d = Digest::new();
    d.bool("k", false);
    assert_eq!(
        d.result_str(),
        "e3aa891d51668320381b3e63a8f74825aa9772a2d5fabbc984ea2137e64db63b"
    );
}

#[test]
fn sequence_appends_each_item() {
    let mut d = Digest::new();
    d.sequence("Cmd", &vec!["a".to_string(), "b".to_string()]);
    assert_eq!(
        d.result_str(),
        "877380779dcbce5c8ddb5c9928fc4a1bbbf2e850311b544f2d80cc96e66bc99f"
    );
}

#[test]
fn empty_recipe_hash_is_well_defined() {
    let steps: Vec<Step> = Vec::new();
    match recipe_version(&steps, &ug_input()) {
        VersionOutcome::Hashed(h) => {
            assert_eq!(h, "8c6970aff54b405e73c78d54064531ac6ea61213145a32c185c79aeb451fc31b");
        }
        _ => panic!("empty recipe must version"),
    }
}

#[test]
fn recipe_hash_is_deterministic() {
    let steps = vec![Step::Sh("echo hi".to_string())];
    let a = recipe_version(&steps, &ug_input());
    let b = recipe_version(&steps, &ug_input());
    match (a, b) {
        (VersionOutcome::Hashed(x), VersionOutcome::Hashed(y)) => {
            assert_eq!(x, y);
            assert_eq!(x, "99619304f1ceadc0908d7e31d274030e259dd697a48011445f31900f7b79a17a");
        }
        _ => panic!("shell recipe must version"),
    }
}

#[test]
fn hash_depends_on_uid_map() {
    let steps = vec![Step::Sh("echo hi".to_string())];
    let a = recipe_version(&steps, &ug_input());
    let mut other = ug_input();
    other.uid_map = b"U2".to_vec();
    let b = recipe_version(&steps, &other);
    match (a, b) {
        (VersionOutcome::Hashed(x), VersionOutcome::Hashed(y)) => assert_ne!(x, y),
        _ => panic!("both must version"),
    }
}

#[test]
fn unfetched_base_image_is_new() {
    let steps = vec![Step::Ubuntu("focal".to_string())];
    let out = recipe_version(&steps, &empty_input());
    assert!(matches!(out, VersionOutcome::New));
    assert_eq!(version_exit_code(&VersionOutcome::New), 29);
}

#[test]
fn fetched_base_image_hashes() {
    let steps = vec![Step::Ubuntu("focal".to_string())];
    let mut inp = empty_input();
    inp.images.push(("ubuntu:focal".to_string(), b"image-id-1".to_vec()));
    let out = recipe_version(&steps, &inp);
    assert!(matches!(out, VersionOutcome::Hashed(_)));
}

#[test]
fn image_identity_changes_hash() {
    let steps = vec![Step::Ubuntu("focal".to_string())];
    let mut a = empty_input();
    a.images.push(("ubuntu:focal".to_string(), b"image-id-1".to_vec()));
    let mut b = empty_input();
    b.images.push(("ubuntu:focal".to_string(), b"image-id-2".to_vec()));
    match (recipe_version(&steps, &a), recipe_version(&steps, &b)) {
        (VersionOutcome::Hashed(x), VersionOutcome::Hashed(y)) => assert_ne!(x, y),
        _ => panic!("both must version"),
    }
}

#[test]
fn missing_dependency_file_is_an_error() {
    let steps = vec![Step::Depends("deps.txt".to_string())];
    match recipe_version(&steps, &empty_input()) {
        VersionOutcome::Error(e) => assert_eq!(e, "No such file: deps.txt"),
        _ => panic!("missing file must fail versioning"),
    }
}

#[test]
fn dependency_file_contents_reach_the_hash() {
    let steps = vec![Step::Depends("deps.txt".to_string())];
    let mut a = empty_input();
    a.work_files.push(("deps.txt".to_string(), b"one".to_vec()));
    let mut b = empty_input();
    b.work_files.push(("deps.txt".to_string(), b"two".to_vec()));
    match (recipe_version(&steps, &a), recipe_version(&steps, &b)) {
        (VersionOutcome::Hashed(x), VersionOutcome::Hashed(y)) => assert_ne!(x, y),
        _ => panic!("both must version"),
    }
}

#[test]
fn exit_codes_follow_the_outcome() {
    assert_eq!(version_exit_code(&VersionOutcome::Hashed("h".repeat(64))), 0);
    assert_eq!(version_exit_code(&VersionOutcome::New), 29);
    assert_eq!(version_exit_code(&VersionOutcome::Error("x".to_string())), 1);
}

#[test]
fn single_step_hash_walks() {
    let mut d = Digest::new();
    let step = Step::Sh("echo hi".to_string());
    let r = step.hash(&mut d, &empty_input());
    assert!(matches!(r, HashResult::Hashed));
}

#[test]
fn opt_field_feeds_only_present_values() {
    let mut d = Digest::new();
    d.opt_field("k", &Some("v".to_string()));
    assert_eq!(
        d.result_str(),
        "ceb95195e67f3cc7081bc7a57bc8cb8c774113515abd080a805fee25b5b15813"
    );
    let mut d = Digest::new();
    d.opt_field("k", &None);
    assert_eq!(
        d.result_str(),
        "e3b0c44298fc1c149afbf4c8996fb92427ae41e4649b934ca495991b7852b855"
    );
}

#[test]
fn file_entries_feed_metadata_and_contents() {
    let info = FileInfo {
        name: b"a.conf".to_vec(),
        mode: 0o755,
        uid: 0,
        gid: 0,
        kind: FileKind::Regular(b"x=1".to_vec()),
    };
    let mut d = Digest::new();
    d.file(&info, None, None);
    assert_eq!(
        d.result_str(),
        "349e7723e8a3f740c0bb3f24b28ac7c4d2083180eb79e70130b27a858085848b"
    );
    // an ownership override changes the digest
    let mut d = Digest::new();
    d.file(&info, Some(1000), None);
    assert_ne!(
        d.result_str(),
        "349e7723e8a3f740c0bb3f24b28ac7c4d2083180eb79e70130b27a858085848b"
    );
}

#[test]
fn download_names_are_content_addressed() {
    assert_eq!(
        download_cache_name(&"https://example.org/images/alpine.tar.gz".to_string()),
        "c3f80318-alpine.tar.gz"
    );
    // a url ending in a slash falls back to a fixed file name
    assert_eq!(
        download_cache_name(&"https://example.org/".to_string()),
        "8198d1ba-file.bin"
    );
}

#[test]
fn file_trees_feed_entries_in_walk_order() {
    let entries = vec![
        FileInfo {
            name: b"a.conf".to_vec(),
            mode: 0o644,
            uid: 0,
            gid: 0,
            kind: FileKind::Regular(b"x".to_vec()),
        },
        FileInfo {
            name: b"b.conf".to_vec(),
            mode: 0o644,
            uid: 0,
            gid: 0,
            kind: FileKind::Regular(b"y".to_vec()),
        },
    ];
    let mut d = Digest::new();
    d.file_tree(&entries, None, None);
    assert_eq!(
        d.result_str(),
        "47c6470cb999561113f5ded1b4b83482f87f87433ec23afb52061344a6e99832"
    );
}

fn step_bytes(step: &Step) -> String {
    // the bytes one step feeds, hashed on an otherwise empty digest
    let mut d = Digest::new();
    let inp = empty_input();
    assert!(matches!(step.hash(&mut d, &inp), HashResult::Hashed));
    d.result_str()
}

#[test]
fn legacy_steps_keep_their_historical_bytes() {
    // the step kinds the versioner has always known hash untagged,
    // exactly as they always did
    assert_eq!(
        step_bytes(&Step::Sh("x".to_string())),
        "14f825b2bbc32dd8d196367fa8776873069c12a8954d8da7513aa7704ddd09eb"
    );
    assert_eq!(
        step_bytes(&Step::Cmd(vec!["a".to_string(), "b".to_string()])),
        "8fb20ef63ced4145fc2e983ffe597d1dcff39154c3bf21f0fa9dde6a0c50fdc9"
    );
    assert_eq!(
        step_bytes(&Step::Env(vec![("k".to_string(), "v".to_string())])),
        "ceb95195e67f3cc7081bc7a57bc8cb8c774113515abd080a805fee25b5b15813"
    );
    assert_eq!(
        step_bytes(&Step::Remove("/x".to_string())),
        "c0d3cae6162f64dba6f69d81b4a7c8b99565f529bea6c4b869e6e288794cf79d"
    );
    // the historical framing does not distinguish these two
    assert_eq!(
        step_bytes(&Step::Remove("/x".to_string())),
        step_bytes(&Step::EmptyDir("/x".to_string()))
    );
}

