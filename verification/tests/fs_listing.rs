use tishlang_desktop::fs::{
    capped_listing, check_read_size, check_under_root, entry_kind, file_path_arg, fs_root, sandbox_candidate, list_path_arg, list_reply, sort_by_name, text_less,
    DirEntryDto, MAX_LIST_ENTRIES, MAX_READ_BYTES,
};
use tishlang_desktop::json::{Json, JsonNumber};

fn entry(name: &str, size: u64) -> DirEntryDto {
    DirEntryDto {
        name: name.to_string(),
        path: format!("dir/{name}"),
        kind: entry_kind(false, true).to_string(),
        size,
        mtime: 0,
    }
}

#[test]
fn listings_sort_by_lowercased_name_keeping_ties_in_order() {
    let sorted = sort_by_name(vec![
        entry("b.txt", 1),
        entry("A.txt", 2),
        entry("a.txt", 3),
        entry("Z", 4),
        entry("é", 5),
    ]);
    let names: Vec<&str> = sorted.iter().map(|e| e.name.as_str()).collect();
    assert_eq!(names, vec!["A.txt", "a.txt", "b.txt", "Z", "é"]);
    assert!(sort_by_name(vec![]).is_empty());
}

#[test]
fn text_order_is_by_code_point_with_prefixes_first() {
    let c = |s: &str| s.chars().collect::<Vec<char>>();
    assert!(text_less(&c("ab"), &c("abc")));
    assert!(!text_less(&c("abc"), &c("ab")));
    assert!(text_less(&c("Z"), &c("a")));
    assert!(!text_less(&c("same"), &c("same")));
    assert_eq!(text_less(&c("é"), &c("z")), "é" < "z");
}

#[test]
fn entries_and_arguments() {
    assert_eq!(entry_kind(true, false), "dir");
    assert_eq!(entry_kind(false, false), "other");
    let r = list_reply(&vec![entry("x", 7)]);
    match r.get("entries") {
        Some(Json::Array(items)) => {
            assert_eq!(items[0].get("size"), Some(&Json::Number(JsonNumber::PosInt(7))));
            assert_eq!(items[0].get("path"), Some(&Json::Str("dir/x".to_string())));
        }
        _ => panic!("entries"),
    }
    assert_eq!(list_path_arg(&Json::Object(vec![])), ".");
    assert_eq!(file_path_arg(&Json::Object(vec![])), Err("path required".to_string()));
    assert_eq!(fs_root(&None), Err("fs root not set".to_string()));
    assert_eq!(MAX_LIST_ENTRIES, 2000);
    assert_eq!(MAX_READ_BYTES, 256 * 1024);
}

#[test]
fn read_cap_allows_up_to_the_limit_and_refuses_beyond() {
    assert_eq!(check_read_size(0), Ok(()));
    assert_eq!(check_read_size(MAX_READ_BYTES), Ok(()));
    assert_eq!(
        check_read_size(MAX_READ_BYTES + 1),
        Err("file exceeds 262144 byte read cap".to_string())
    );
}

#[test]
fn sandbox_candidates_join_relative_paths_under_the_root() {
    assert_eq!(sandbox_candidate("/srv/root", "docs/a.txt"), "/srv/root/docs/a.txt");
    assert_eq!(sandbox_candidate("/srv/root/", "docs"), "/srv/root/docs");
    assert_eq!(sandbox_candidate("/srv/root", "/etc/passwd"), "/etc/passwd");
    assert_eq!(sandbox_candidate("/srv/root", ""), "/srv/root/");
}

#[test]
fn only_paths_under_the_root_are_admitted() {
    let escape = Err("path escapes allowlisted root".to_string());
    assert_eq!(check_under_root("/srv/root", "/srv/root"), Ok("/srv/root".to_string()));
    assert_eq!(check_under_root("/srv/root", "/srv/root/a/b"), Ok("/srv/root/a/b".to_string()));
    assert_eq!(check_under_root("/srv/root/", "/srv/root//a"), Ok("/srv/root//a".to_string()));
    assert_eq!(check_under_root("/srv/root", "/srv/rootkit/x"), escape);
    assert_eq!(check_under_root("/srv/root", "/srv"), escape);
    assert_eq!(check_under_root("/srv/root", "/etc/passwd"), escape);
    assert_eq!(check_under_root("/", "/anything"), Ok("/anything".to_string()));
}

#[test]
fn listings_keep_the_first_entries_read() {
    let read: Vec<DirEntryDto> = (0..MAX_LIST_ENTRIES + 5).rev().map(|i| entry(&format!("n{i:05}"), i as u64)).collect();
    let listed = capped_listing(read);
    assert_eq!(listed.len(), MAX_LIST_ENTRIES);
    assert_eq!(listed[0].name, "n00005");
    assert_eq!(listed[MAX_LIST_ENTRIES - 1].name, format!("n{:05}", MAX_LIST_ENTRIES + 4));
    let few = capped_listing(vec![entry("b", 1), entry("A", 2)]);
    assert_eq!(few.iter().map(|e| e.name.as_str()).collect::<Vec<_>>(), vec!["A", "b"]);
}
