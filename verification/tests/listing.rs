use nixfront::listing::{filter_requested, find_requested, parse_line, parse_listing, ListedPackage};
use nixfront::package::Package;

fn entry(position: &str, store_path: &str) -> ListedPackage {
    ListedPackage::new(position.to_string(), store_path.to_string())
}

fn requested(names: &[&str]) -> Vec<Package> {
    names.iter().map(|n| Package::from(*n)).collect()
}

#[test]
fn new_keeps_both_fields() {
    let e = ListedPackage::new("3".to_string(), "/nix/store/abc-htop-1.0".to_string());
    assert_eq!(e.position(), "3");
    assert_eq!(e.store_path(), "/nix/store/abc-htop-1.0");
    assert_eq!(e.clone(), e);
    assert_ne!(e, entry("4", "/nix/store/abc-htop-1.0"));
}

#[test]
fn line_with_four_words_is_an_entry() {
    let line = "0   flake:nixpkgs   1.2.3   /nix/store/abc-htop-1.0";
    assert_eq!(parse_line(line), Some(entry("0", "/nix/store/abc-htop-1.0")));
}

#[test]
fn listing_line_filtered_by_name() {
    let raw = "0   flake:nixpkgs   1.2.3   /nix/store/abc-htop-1.0";
    let found = find_requested(raw, &requested(&["htop"]));
    assert_eq!(found, vec![entry("0", "/nix/store/abc-htop-1.0")]);
}

#[test]
fn line_with_three_words_is_dropped() {
    assert_eq!(parse_line("0 flake:nixpkgs /nix/store/abc-htop-1.0"), None);
    assert_eq!(parse_listing("0 flake:nixpkgs /nix/store/abc-htop-1.0"), vec![]);
}

#[test]
fn line_with_five_words_is_dropped() {
    assert_eq!(parse_line("0 flake:nixpkgs 1.2.3 /nix/store/abc-htop-1.0 extra"), None);
    assert_eq!(
        parse_listing("0 flake:nixpkgs 1.2.3 /nix/store/abc-htop-1.0 extra"),
        vec![]
    );
}

#[test]
fn blank_line_is_dropped() {
    assert_eq!(parse_line(""), None);
    assert_eq!(parse_line("   \t "), None);
    assert_eq!(parse_listing(""), vec![]);
    assert_eq!(parse_listing("\n\n   \n"), vec![]);
}

#[test]
fn third_word_is_discarded() {
    assert_eq!(parse_line("7 a VERSION /p"), parse_line("7 a other /p"));
    assert_eq!(parse_line("7 a VERSION /p"), Some(entry("7", "/p")));
}

#[test]
fn surrounding_whitespace_does_not_count() {
    assert_eq!(parse_line("  12\tx\ty\t/nix/store/z  \r"), Some(entry("12", "/nix/store/z")));
}

#[test]
fn listing_keeps_the_order_of_the_lines() {
    let raw = "Index Flake Version Path\n\
               0 flake:nixpkgs#htop 3.2 /nix/store/aaa-htop-3.2\n\
               \n\
               malformed row\n\
               1 flake:nixpkgs#bash 5.2 /nix/store/bbb-bash-5.2\n\
               2 flake:nixpkgs#hello 2.12 /nix/store/ccc-hello-2.12 trailing\n\
               3 flake:nixpkgs#jq 1.7 /nix/store/ddd-jq-1.7\n";
    assert_eq!(
        parse_listing(raw),
        vec![
            entry("Index", "Path"),
            entry("0", "/nix/store/aaa-htop-3.2"),
            entry("1", "/nix/store/bbb-bash-5.2"),
            entry("3", "/nix/store/ddd-jq-1.7"),
        ]
    );
}

#[test]
fn filtering_is_by_substring() {
    let entries = vec![
        entry("0", "/nix/store/aaa-bash-completion-2.11"),
        entry("1", "/nix/store/bbb-htop-3.2"),
        entry("2", "/nix/store/ccc-bash-5.2"),
    ];
    let found = filter_requested(&entries, &requested(&["bash"]));
    assert_eq!(
        found,
        vec![
            entry("0", "/nix/store/aaa-bash-completion-2.11"),
            entry("2", "/nix/store/ccc-bash-5.2"),
        ]
    );
    assert!(entries[0].is_requested(&requested(&["bash"])));
    assert!(!entries[1].is_requested(&requested(&["bash"])));
}

#[test]
fn filtering_goes_by_the_name_alone() {
    let entries = vec![entry("0", "/nix/store/aaa-htop-3.2")];
    assert_eq!(filter_requested(&entries, &requested(&["elsewhere#htop"])), entries);
    assert_eq!(filter_requested(&entries, &requested(&["htop#elsewhere"])), vec![]);
}

#[test]
fn any_requested_name_selects() {
    let entries = vec![
        entry("0", "/nix/store/aaa-htop-3.2"),
        entry("1", "/nix/store/bbb-jq-1.7"),
        entry("2", "/nix/store/ccc-hello-2.12"),
    ];
    let found = filter_requested(&entries, &requested(&["hello", "nixpkgs#htop"]));
    assert_eq!(
        found,
        vec![entry("0", "/nix/store/aaa-htop-3.2"), entry("2", "/nix/store/ccc-hello-2.12")]
    );
    assert_eq!(filter_requested(&entries, &requested(&[])), vec![]);
    assert_eq!(filter_requested(&entries, &requested(&["vim"])), vec![]);
}

#[test]
fn empty_name_selects_everything() {
    let entries = vec![entry("0", "/nix/store/aaa-htop-3.2"), entry("1", "/nix/store/bbb-jq-1.7")];
    assert_eq!(filter_requested(&entries, &requested(&["repo#"])), entries);
}

#[test]
fn find_requested_reads_and_filters() {
    let raw = "0 flake:nixpkgs#htop 3.2 /nix/store/aaa-htop-3.2\n\
               1 flake:nixpkgs#bash 5.2 /nix/store/bbb-bash-5.2\n\
               2 flake:nixpkgs#bash-completion 2.11 /nix/store/ccc-bash-completion-2.11\n";
    assert_eq!(
        find_requested(raw, &requested(&["bash"])),
        vec![
            entry("1", "/nix/store/bbb-bash-5.2"),
            entry("2", "/nix/store/ccc-bash-completion-2.11"),
        ]
    );
    assert_eq!(find_requested(raw, &requested(&["vim"])), vec![]);
}
