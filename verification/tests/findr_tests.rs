use findr::entry::{base_name, join_path, DirEntry, EntryKind};
use findr::filter::{accepts, FilterConfig};
use findr::output::{error_lines, join_lines, matching_paths, root_block, root_blocks, WalkItem};
use findr::pattern::NamePattern;
use findr::walker::{Probe, Walker};

fn entry(path: &str, kind: EntryKind) -> WalkItem {
    WalkItem::Entry(DirEntry { path: path.to_string(), kind })
}

fn dir_entry(path: &str, kind: EntryKind) -> DirEntry {
    DirEntry { path: path.to_string(), kind }
}

fn config(kinds: Vec<EntryKind>, patterns: Vec<&str>) -> FilterConfig {
    let mut name_filters = Vec::new();
    for p in patterns {
        name_filters.push(NamePattern::new(p).unwrap());
    }
    FilterConfig { kind_filters: kinds, name_filters }
}

/// Drives a walk whose probes come from a fixed table, and returns the
/// stream of items in visit order.
fn drive(root: &str, probes: Vec<(&str, Probe)>) -> Vec<WalkItem> {
    let mut table: Vec<(String, Probe)> = probes
        .into_iter()
        .map(|(p, probe)| (p.to_string(), probe))
        .collect();
    let mut walker = Walker::new(root.to_string());
    let mut items = Vec::new();
    while let Some(path) = walker.next_path() {
        let at = table
            .iter()
            .position(|(p, _)| *p == path)
            .unwrap_or_else(|| panic!("no probe for {path}"));
        let (_, probe) = table.remove(at);
        let (e, err) = walker.step(path, &probe);
        if let Some(e) = e {
            items.push(WalkItem::Entry(e));
        }
        if let Some(err) = err {
            items.push(WalkItem::Fail(err));
        }
    }
    items
}

fn paths_of(items: &Vec<WalkItem>, config: &FilterConfig) -> Vec<String> {
    matching_paths(items, config)
}

#[test]
fn empty_config_accepts_every_entry() {
    let c = FilterConfig::match_all();
    assert!(accepts(&dir_entry("a/b.txt", EntryKind::File), &c));
    assert!(accepts(&dir_entry("a/b", EntryKind::Directory), &c));
    assert!(accepts(&dir_entry("a/l", EntryKind::SymbolicLink), &c));
    assert!(accepts(&dir_entry("", EntryKind::File), &c));
}

#[test]
fn accepts_depends_on_base_name_only() {
    let c = config(vec![], vec!["^a"]);
    assert_eq!(
        accepts(&dir_entry("a.txt", EntryKind::File), &c),
        accepts(&dir_entry("deep/nested/a.txt", EntryKind::File), &c)
    );
    assert!(accepts(&dir_entry("deep/nested/a.txt", EntryKind::File), &c));
    // The ancestor directory name matching the pattern does not help the leaf.
    assert!(!accepts(&dir_entry("abc/zzz.txt", EntryKind::File), &c));
}

#[test]
fn single_file_root_yields_one_entry() {
    let items = drive("notes.txt", vec![("notes.txt", Probe::File)]);
    assert_eq!(items.len(), 1);
    match &items[0] {
        WalkItem::Entry(e) => {
            assert_eq!(e.path, "notes.txt");
            assert_eq!(e.kind, EntryKind::File);
        }
        WalkItem::Fail(_) => panic!("a plain file must not fail"),
    }
}

#[test]
fn broken_subdirectory_does_not_abort_the_walk() {
    let items = drive(
        "r",
        vec![
            (
                "r",
                Probe::Directory(vec![
                    "a.txt".to_string(),
                    "locked".to_string(),
                    "b.txt".to_string(),
                ]),
            ),
            ("r/a.txt", Probe::File),
            ("r/locked", Probe::DirectoryUnreadable("permission denied".to_string())),
            ("r/b.txt", Probe::File),
        ],
    );
    let errors = error_lines(&items);
    assert_eq!(errors, vec!["r/locked: permission denied".to_string()]);
    let files = paths_of(&items, &config(vec![EntryKind::File], vec![]));
    assert_eq!(files, vec!["r/a.txt".to_string(), "r/b.txt".to_string()]);
}

#[test]
fn name_filter_matches_base_name_not_full_path() {
    let items = vec![
        entry(".", EntryKind::Directory),
        entry("./a.txt", EntryKind::File),
        entry("./b", EntryKind::Directory),
        entry("./b/a.txt", EntryKind::File),
    ];
    let c = config(vec![], vec!["^a"]);
    assert_eq!(
        paths_of(&items, &c),
        vec!["./a.txt".to_string(), "./b/a.txt".to_string()]
    );
}

#[test]
fn directory_filter_returns_exactly_the_directories() {
    let items = vec![
        entry("t", EntryKind::Directory),
        entry("t/d1", EntryKind::Directory),
        entry("t/d1/f2", EntryKind::File),
        entry("t/f1", EntryKind::File),
        entry("t/f3", EntryKind::File),
    ];
    let c = config(vec![EntryKind::Directory], vec![]);
    assert_eq!(paths_of(&items, &c), vec!["t".to_string(), "t/d1".to_string()]);
}

#[test]
fn each_root_keeps_its_own_block_even_when_empty() {
    let walks = vec![
        vec![entry("one/a.txt", EntryKind::File)],
        vec![entry("two/q", EntryKind::File)],
    ];
    let c = config(vec![], vec!["^a"]);
    let blocks = root_blocks(&walks, &c);
    assert_eq!(blocks, vec!["one/a.txt".to_string(), "".to_string()]);
}

#[test]
fn symbolic_link_is_not_a_directory_for_the_kind_filter() {
    let link = dir_entry("x/l", EntryKind::SymbolicLink);
    assert!(!accepts(&link, &config(vec![EntryKind::Directory], vec![])));
    assert!(accepts(&link, &config(vec![EntryKind::SymbolicLink], vec![])));
    assert!(accepts(
        &link,
        &config(vec![EntryKind::Directory, EntryKind::SymbolicLink], vec![])
    ));
}

#[test]
fn symlink_precedence_in_classification() {
    // A link that resolves to a directory is still a link.
    assert_eq!(findr::entry::classify(true, true), EntryKind::SymbolicLink);
    assert_eq!(findr::entry::classify(true, false), EntryKind::SymbolicLink);
    assert_eq!(findr::entry::classify(false, true), EntryKind::Directory);
    assert_eq!(findr::entry::classify(false, false), EntryKind::File);
}

#[test]
fn invalid_pattern_is_rejected() {
    assert!(NamePattern::new("[").is_none());
    assert!(NamePattern::new("^a").is_some());
}

#[test]
fn name_patterns_really_match() {
    let c = config(vec![], vec!["\\.txt$"]);
    assert!(accepts(&dir_entry("d/a.txt", EntryKind::File), &c));
    assert!(!accepts(&dir_entry("d/a.txtx", EntryKind::File), &c));
    assert!(!accepts(&dir_entry("d/txt", EntryKind::File), &c));
    let exact = config(vec![], vec!["^ab$"]);
    assert!(accepts(&dir_entry("x/ab", EntryKind::File), &exact));
    assert!(!accepts(&dir_entry("x/abc", EntryKind::File), &exact));
}

#[test]
fn any_of_several_patterns_suffices() {
    let c = config(vec![], vec!["^zz$", "^a"]);
    assert!(accepts(&dir_entry("p/a.txt", EntryKind::File), &c));
    assert!(accepts(&dir_entry("p/zz", EntryKind::File), &c));
    assert!(!accepts(&dir_entry("p/b", EntryKind::File), &c));
}

#[test]
fn walk_is_depth_first_in_listing_order() {
    let items = drive(
        "r",
        vec![
            ("r", Probe::Directory(vec!["s".to_string(), "t".to_string()])),
            ("r/s", Probe::Directory(vec!["u".to_string()])),
            ("r/s/u", Probe::File),
            ("r/t", Probe::File),
        ],
    );
    let all = paths_of(&items, &FilterConfig::match_all());
    assert_eq!(
        all,
        vec![
            "r".to_string(),
            "r/s".to_string(),
            "r/s/u".to_string(),
            "r/t".to_string()
        ]
    );
}

#[test]
fn unreadable_root_yields_only_an_error() {
    let items = drive("gone", vec![("gone", Probe::Unreadable("no such file".to_string()))]);
    assert_eq!(paths_of(&items, &FilterConfig::match_all()), Vec::<String>::new());
    assert_eq!(error_lines(&items), vec!["gone: no such file".to_string()]);
}

#[test]
fn empty_block_is_an_empty_line_not_nothing() {
    let items = vec![entry("q/b", EntryKind::File)];
    let c = config(vec![], vec!["^a"]);
    assert_eq!(root_block(&items, &c), "");
    let matched = config(vec![], vec!["^b"]);
    assert_eq!(root_block(&items, &matched), "q/b");
}

#[test]
fn join_lines_is_exact() {
    assert_eq!(join_lines(&vec![]), "");
    assert_eq!(join_lines(&vec!["a".to_string()]), "a");
    assert_eq!(
        join_lines(&vec!["a".to_string(), "b".to_string(), "c".to_string()]),
        "a\nb\nc"
    );
}

#[test]
fn base_name_and_join_path_are_exact() {
    assert_eq!(base_name("a/b/c.txt"), "c.txt");
    assert_eq!(base_name("c.txt"), "c.txt");
    assert_eq!(base_name("."), ".");
    assert_eq!(base_name("dir/"), "");
    assert_eq!(join_path("a", "b"), "a/b");
    assert_eq!(join_path(".", "a.txt"), "./a.txt");
}
