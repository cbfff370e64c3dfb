use vagga::range::Range;
use vagga::uidmap::{
    get_max_uidmap, map_users, match_ranges, read_uid_map, read_uid_ranges, render_uidmap, Uidmap,
};

#[test]
fn subuid_entry_parses() {
    let data = b"alice:100000:65536\n".to_vec();
    let ranges = read_uid_map(&data, &b"alice".to_vec()).unwrap();
    assert_eq!(ranges.len(), 1);
    assert_eq!(ranges[0].start, 100000);
    assert_eq!(ranges[0].end, 165535);
}

#[test]
fn subuid_other_users_are_skipped() {
    let data = b"alice:100000:65536\nbob:200000:1000\n".to_vec();
    let ranges = read_uid_map(&data, &b"bob".to_vec()).unwrap();
    assert_eq!(ranges.len(), 1);
    assert_eq!(ranges[0].start, 200000);
    assert_eq!(ranges[0].end, 200999);
}

#[test]
fn subuid_comments_are_skipped() {
    let data = b"# a comment\nalice:1000:10\n".to_vec();
    let ranges = read_uid_map(&data, &b"alice".to_vec()).unwrap();
    assert_eq!(ranges.len(), 1);
}

#[test]
fn subuid_bad_syntax_is_an_error() {
    let data = b"not a subuid line\n".to_vec();
    let err = read_uid_map(&data, &b"alice".to_vec()).unwrap_err();
    assert_eq!(err, "Bad syntax in subuid file");
}

#[test]
fn proc_map_parses_whitespace_fields() {
    let data = b"         0          0 4294967294\n".to_vec();
    let inside = read_uid_ranges(&data, true).unwrap();
    assert_eq!(inside.len(), 1);
    assert_eq!(inside[0].start, 0);
    assert_eq!(inside[0].end, 4294967293);
}

#[test]
fn match_ranges_reserves_zero_for_invoker() {
    let req = vec![Range { start: 0, end: 0 }];
    let allowed = vec![Range { start: 0, end: 65535 }];
    let v = match_ranges(&req, &allowed, 1000).unwrap();
    assert_eq!(v[0], (0, 1000, 1));
}

#[test]
fn match_ranges_maps_a_full_range() {
    let req = vec![Range { start: 0, end: 65535 }];
    let allowed = vec![Range { start: 0, end: 65535 }];
    let v = match_ranges(&req, &allowed, 0).unwrap();
    assert_eq!(v[0], (0, 0, 1));
    assert_eq!(v[1], (1, 1, 65535));
}

#[test]
fn match_ranges_spans_allocations() {
    let req = vec![Range { start: 1, end: 20 }];
    let allowed = vec![Range { start: 1, end: 10 }, Range { start: 50, end: 60 }];
    let v = match_ranges(&req, &allowed, 0).unwrap();
    assert_eq!(v[0], (0, 0, 1));
    assert_eq!(v[1], (1, 1, 10));
    assert_eq!(v[2], (11, 50, 10));
}

#[test]
fn match_ranges_fails_when_allocation_is_short() {
    let req = vec![Range { start: 1, end: 100 }];
    let allowed = vec![Range { start: 1, end: 10 }];
    assert!(match_ranges(&req, &allowed, 0).is_err());
}

#[test]
fn max_uidmap_without_subids_degrades_to_singleton() {
    let proc_ranges = vec![Range { start: 0, end: 1000 }];
    let m = get_max_uidmap(1000, 1000, &None, &proc_ranges, &proc_ranges);
    match m {
        Uidmap::Singleton(u, g) => {
            assert_eq!(u, 1000);
            assert_eq!(g, 1000);
        }
        _ => panic!("expected a singleton map"),
    }
}

#[test]
fn max_uidmap_for_root_reuses_kernel_map() {
    // subuid files empty and the caller already root: the kernel's own
    // map is reused unchanged
    let proc_uid = vec![Range { start: 0, end: 4294967294 }];
    let proc_gid = vec![Range { start: 0, end: 1000 }];
    let m = get_max_uidmap(0, 0, &Some((Vec::new(), Vec::new())), &proc_uid, &proc_gid);
    match m {
        Uidmap::Ranges(us, gs) => {
            assert_eq!(us, vec![(0, 0, 4294967295u32)]);
            assert_eq!(gs, vec![(0, 0, 1001)]);
        }
        _ => panic!("expected ranges"),
    }
}

#[test]
fn max_uidmap_allocates_own_ranges() {
    let alloc = vec![Range { start: 100000, end: 165535 }];
    let proc_ranges = vec![Range { start: 0, end: 0 }];
    let m = get_max_uidmap(
        1000,
        1000,
        &Some((alloc.clone(), alloc.clone())),
        &proc_ranges,
        &proc_ranges,
    );
    match m {
        Uidmap::Ranges(us, gs) => {
            assert_eq!(us, vec![(0, 1000, 1), (100000, 100000, 65536)]);
            assert_eq!(gs, vec![(0, 1000, 1), (100000, 100000, 65536)]);
        }
        _ => panic!("expected ranges"),
    }
}

#[test]
fn map_users_defaults_to_root_only() {
    let proc_ranges = vec![Range { start: 0, end: 65535 }];
    let m = map_users(&None, &Vec::new(), &Vec::new(), &proc_ranges, &proc_ranges).unwrap();
    match m {
        Uidmap::Ranges(us, gs) => {
            assert_eq!(us, vec![(0, 0, 1)]);
            assert_eq!(gs, vec![(0, 0, 1)]);
        }
        _ => panic!("expected ranges"),
    }
}

#[test]
fn map_users_reports_short_subuids() {
    let proc_ranges = vec![Range { start: 1, end: 5 }];
    let req = vec![Range { start: 0, end: 65535 }];
    let err = map_users(&None, &req, &Vec::new(), &proc_ranges, &proc_ranges).unwrap_err();
    assert_eq!(
        err,
        "Number of allowed subuids is too small. Required: [0-65535], allowed: [1-5]"
    );
}

#[test]
fn render_uidmap_writes_kernel_lines() {
    let m = Uidmap::Ranges(vec![(0, 1000, 1), (1, 100000, 65535)], vec![(0, 1000, 1)]);
    let (u, g) = render_uidmap(&m);
    assert_eq!(u, b"0 1000 1\n1 100000 65535\n".to_vec());
    assert_eq!(g, b"0 1000 1\n".to_vec());
}

#[test]
fn render_singleton_maps_zero_to_invoker() {
    let m = Uidmap::Singleton(1000, 1001);
    let (u, g) = render_uidmap(&m);
    assert_eq!(u, b"0 1000 1\n".to_vec());
    assert_eq!(g, b"0 1001 1\n".to_vec());
}

#[test]
fn subuid_overflowing_numbers_are_rejected() {
    let data = b"alice:4294967290:100\n".to_vec();
    let err = read_uid_map(&data, &b"alice".to_vec()).unwrap_err();
    assert_eq!(err, "Bad syntax in subuid file");
    let data = b"alice:99999999999999:1\n".to_vec();
    assert!(read_uid_map(&data, &b"alice".to_vec()).is_err());
}

#[test]
fn subuid_zero_count_is_rejected() {
    let data = b"alice:1000:0\n".to_vec();
    assert!(read_uid_map(&data, &b"alice".to_vec()).is_err());
}

