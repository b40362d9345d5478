use trickster::error::{FindError, ParseError, QueryError, StateError};
use trickster::locator::{NameRead, ProcessTable, TableEntry};
use trickster::maps::MapsRead;
use trickster::Process;
use trickster::region_index::{find_containing, find_first_by_name, is_named, RegionIndex};
use trickster::{MemoryRegion, RegionPermissions};

fn perms(field: &str) -> RegionPermissions {
    let c: Vec<char> = field.chars().collect();
    RegionPermissions {
        readable: c[0] == 'r',
        writeable: c[1] == 'w',
        executable: c[2] == 'x',
        shared: c[3] == 's',
    }
}

fn region(start: usize, end: usize, field: &str, path: Option<&str>) -> MemoryRegion {
    MemoryRegion {
        start,
        end,
        permissions: perms(field),
        offset: 0,
        dev_major: 0,
        dev_minor: 0,
        inode: 0,
        path: path.map(String::from),
    }
}

fn process() -> Process {
    let table = ProcessTable::Listed(vec![TableEntry {
        file_name: String::from("42"),
        comm: NameRead::Recorded(String::from("cat\n")),
    }]);
    Process::new("cat", &table).unwrap()
}

fn text(s: &str) -> MapsRead {
    MapsRead::Text(String::from(s))
}

const MAPS: &str = "08048000-08049000 r-xp 00000000 03:0c 64593 /bin/cat\n\
                    08049000-0804a000 rw-p 00001000 03:0c 64593 /bin/cat\n\
                    0804a000-0806b000 rw-p 00000000 00:00 0 [heap]\n\
                    a7cb1000-a7cb2000 rw-p 00000000 00:00 0\n\
                    a7cb2000-a7cbf000 r-xp 00000000 03:0c 4222 /lib/libc.so\n\
                    a7cbf000-a7cc0000 rw-p 0000d000 03:0c 4222 /lib/libc.so\n";

#[test]
fn upper_bound_of_a_region_belongs_to_it() {
    let regions = vec![region(0x1000, 0x2000, "r-xp", None)];
    assert_eq!(find_containing(&regions, 0x2000), Ok(&regions[0]));
    assert_eq!(find_containing(&regions, 0x1000), Ok(&regions[0]));
    assert_eq!(find_containing(&regions, 0x1800), Ok(&regions[0]));
    assert_eq!(find_containing(&regions, 0x2001), Err(QueryError::NotFound));
    assert_eq!(find_containing(&regions, 0xfff), Err(QueryError::NotFound));
}

#[test]
fn shared_bound_goes_to_the_first_region() {
    let regions = vec![
        region(0x1000, 0x2000, "r-xp", Some("/a")),
        region(0x2000, 0x3000, "rw-p", Some("/b")),
    ];
    assert_eq!(find_containing(&regions, 0x2000), Ok(&regions[0]));
    assert_eq!(find_containing(&regions, 0x2001), Ok(&regions[1]));
    assert_eq!(find_containing(&regions, 0x3000), Ok(&regions[1]));
}

#[test]
fn no_region_holds_an_address_in_an_empty_map() {
    let regions: Vec<MemoryRegion> = vec![];
    assert_eq!(find_containing(&regions, 0), Err(QueryError::NotFound));
    assert_eq!(find_first_by_name(&regions, "x", None), Err(QueryError::NotFound));
}

#[test]
fn address_at_the_limits_of_the_address_space() {
    let regions = vec![region(0, 0, "r--p", None), region(usize::MAX, usize::MAX, "r--p", None)];
    assert_eq!(find_containing(&regions, 0), Ok(&regions[0]));
    assert_eq!(find_containing(&regions, usize::MAX), Ok(&regions[1]));
    assert_eq!(find_containing(&regions, 1), Err(QueryError::NotFound));
}

#[test]
fn first_region_of_a_name_with_other_permissions_fails_the_search() {
    let regions = vec![
        region(0x1000, 0x2000, "r-xp", Some("/usr/lib/libc.so")),
        region(0x2000, 0x3000, "rw-p", Some("/usr/lib/libc.so")),
    ];
    assert_eq!(
        find_first_by_name(&regions, "libc.so", Some(perms("rw-p"))),
        Err(QueryError::PermissionMismatch { expected: perms("rw-p"), actual: perms("r-xp") })
    );
    assert_eq!(find_first_by_name(&regions, "libc.so", Some(perms("r-xp"))), Ok(&regions[0]));
    assert_eq!(find_first_by_name(&regions, "libc.so", None), Ok(&regions[0]));
    assert_eq!(
        find_first_by_name(&regions, "libm.so", Some(perms("rw-p"))),
        Err(QueryError::NotFound)
    );
}

#[test]
fn name_of_a_region_is_what_follows_the_last_separator() {
    let r = region(0, 1, "r--p", Some("/usr/lib/libc.so"));
    assert!(is_named(&r, "libc.so"));
    assert!(!is_named(&r, "/usr/lib/libc.so"));
    assert!(!is_named(&r, "lib/libc.so"));
    assert!(!is_named(&r, "libc"));
    assert!(!is_named(&r, "ibc.so"));
    assert!(!is_named(&r, ""));
    assert!(is_named(&region(0, 1, "r--p", Some("/vmlinuz")), "vmlinuz"));
    assert!(!is_named(&region(0, 1, "r--p", Some("/vmlinuz")), "/vmlinuz"));
    assert!(is_named(&region(0, 1, "r--p", Some("[heap]")), "[heap]"));
    assert!(is_named(&region(0, 1, "r--p", Some("/a/b/")), ""));
    assert!(is_named(&region(0, 1, "r--p", Some("/")), ""));
    assert!(is_named(&region(0, 1, "r--p", Some("")), ""));
    assert!(is_named(&region(0, 1, "r--p", Some("//x")), "x"));
    assert!(is_named(&region(0, 1, "r--p", Some("/\u{4e2d}/\u{e4}\u{1f600}")), "\u{e4}\u{1f600}"));
}

#[test]
fn region_without_a_path_goes_by_the_anonymous_name() {
    let r = region(0, 1, "rw-p", None);
    assert!(is_named(&r, "[anonymous_region]"));
    assert!(!is_named(&r, ""));
    assert!(!is_named(&r, "[anonymous_region"));
    assert!(is_named(&region(0, 1, "rw-p", Some("/x/[anonymous_region]")), "[anonymous_region]"));
    let regions = vec![region(0, 1, "r--p", Some("/a")), r.clone(), region(4, 5, "rw-p", None)];
    assert_eq!(find_first_by_name(&regions, "[anonymous_region]", None), Ok(&regions[1]));
}

#[test]
fn queries_fail_before_a_map_is_taken_over() {
    let p = process();
    assert_eq!(p.get_memory_regions(), Err(StateError::NotMapped));
    assert_eq!(
        p.region_find_first_by_name("cat", None),
        Err(FindError::State(StateError::NotMapped))
    );
    assert_eq!(p.get_address_region(0x08048000), Err(FindError::State(StateError::NotMapped)));
}

#[test]
fn queries_on_a_process_answer_from_its_map() {
    let mut p = process();
    assert_eq!(p.parse_maps(&text(MAPS)), Ok(()));
    let regions = p.get_memory_regions().unwrap();
    assert_eq!(regions.len(), 6);
    assert_eq!(regions[2].path, Some(String::from("[heap]")));
    let heap = p.region_find_first_by_name("[heap]", Some(perms("rw-p"))).unwrap();
    assert_eq!((heap.start, heap.end), (0x0804a000, 0x0806b000));
    assert_eq!(p.get_address_region(heap.start + 1), Ok(heap));
    assert_eq!(p.get_address_region(0x08049000).unwrap().end, 0x08049000);
    assert_eq!(p.get_address_region(0x0804a000).unwrap().end, 0x0804a000);
    assert_eq!(p.get_address_region(0x0804a001).unwrap().end, 0x0806b000);
    assert_eq!(p.get_address_region(0x0806b001), Err(FindError::Query(QueryError::NotFound)));
    assert_eq!(p.region_find_first_by_name("cat", None).unwrap().start, 0x08048000);
    assert_eq!(
        p.region_find_first_by_name("cat", Some(perms("rw-p"))),
        Err(FindError::Query(QueryError::PermissionMismatch {
            expected: perms("rw-p"),
            actual: perms("r-xp"),
        }))
    );
    assert_eq!(
        p.region_find_first_by_name("libc.so", Some(perms("rw-p"))),
        Err(FindError::Query(QueryError::PermissionMismatch {
            expected: perms("rw-p"),
            actual: perms("r-xp"),
        }))
    );
    assert_eq!(p.region_find_first_by_name("[anonymous_region]", None).unwrap().start, 0xa7cb1000);
    assert_eq!(
        p.region_find_first_by_name("[stack]", None),
        Err(FindError::Query(QueryError::NotFound))
    );
}

#[test]
fn new_map_replaces_the_old_one_as_a_whole() {
    let mut p = process();
    assert_eq!(p.parse_maps(&text(MAPS)), Ok(()));
    assert_eq!(p.parse_maps(&text("1000-2000 r--p 0 0:0 0 /only\n")), Ok(()));
    let regions = p.get_memory_regions().unwrap();
    assert_eq!(regions.len(), 1);
    assert_eq!(regions[0], region(0x1000, 0x2000, "r--p", Some("/only")));
    assert_eq!(p.parse_maps(&text("")), Ok(()));
    assert_eq!(p.get_memory_regions(), Ok(&vec![]));
    assert_eq!(p.get_address_region(0x1000), Err(FindError::Query(QueryError::NotFound)));
}

#[test]
fn failed_parse_leaves_the_old_map() {
    let mut p = process();
    assert_eq!(p.parse_maps(&text(MAPS)), Ok(()));
    let before = p.get_memory_regions().unwrap().clone();
    let broken = "1000-2000 r--p 0 0:0 0 /new\n2000-3000 r--p 0 0:0\n";
    assert_eq!(p.parse_maps(&text(broken)), Err(ParseError::MalformedLine { line: 1 }));
    assert_eq!(p.get_memory_regions(), Ok(&before));
    assert_eq!(p.parse_maps(&MapsRead::Failed), Err(ParseError::IoFailure));
    assert_eq!(p.get_memory_regions(), Ok(&before));
    assert_eq!(p.get_pid(), 42);
    assert_eq!(p.get_name(), "cat\n");
}

#[test]
fn failed_parse_leaves_a_process_without_a_map() {
    let mut p = process();
    assert_eq!(p.parse_maps(&text("nonsense")), Err(ParseError::MalformedLine { line: 0 }));
    assert_eq!(p.get_memory_regions(), Err(StateError::NotMapped));
    assert_eq!(p.parse_maps(&MapsRead::Failed), Err(ParseError::IoFailure));
    assert_eq!(p.get_memory_regions(), Err(StateError::NotMapped));
}

#[test]
fn region_holds_its_bounds_and_nothing_beyond() {
    let r = region(0x1000, 0x2000, "r--p", None);
    assert!(r.contains(0x1000));
    assert!(r.contains(0x2000));
    assert!(!r.contains(0xfff));
    assert!(!r.contains(0x2001));
    assert_eq!(r.clone(), r);
}

#[test]
fn index_without_a_map_answers_no_query() {
    let index = RegionIndex::Unmapped;
    assert_eq!(index.regions(), Err(StateError::NotMapped));
    assert_eq!(index.find_containing(0), Err(FindError::State(StateError::NotMapped)));
    assert_eq!(
        index.find_first_by_name("[anonymous_region]", None),
        Err(FindError::State(StateError::NotMapped))
    );
}

#[test]
fn index_of_a_map_holds_its_regions_in_order() {
    let index = RegionIndex::from_maps(&text(MAPS)).unwrap();
    let regions = index.regions().unwrap();
    let starts: Vec<usize> = regions.iter().map(|r| r.start).collect();
    assert_eq!(
        starts,
        vec![0x08048000, 0x08049000, 0x0804a000, 0xa7cb1000, 0xa7cb2000, 0xa7cbf000]
    );
    assert_eq!(index.find_containing(0xa7cb2000), Ok(&regions[3]));
    assert_eq!(index.find_containing(0xa7cb2001), Ok(&regions[4]));
    assert_eq!(index.find_first_by_name("libc.so", None), Ok(&regions[4]));
    assert_eq!(
        index.find_first_by_name("libc.so", Some(perms("rw-p"))),
        Err(FindError::Query(QueryError::PermissionMismatch {
            expected: perms("rw-p"),
            actual: perms("r-xp"),
        }))
    );
    assert_eq!(index.find_containing(0), Err(FindError::Query(QueryError::NotFound)));
}

#[test]
fn map_that_fails_gives_no_index() {
    assert_eq!(RegionIndex::from_maps(&MapsRead::Failed), Err(ParseError::IoFailure));
    assert_eq!(
        RegionIndex::from_maps(&text("1-2 r--p 0 0:0 0\n\n")),
        Err(ParseError::MalformedLine { line: 1 })
    );
    assert_eq!(RegionIndex::from_maps(&text("")), Ok(RegionIndex::Mapped(vec![])));
}
