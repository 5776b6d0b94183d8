use sorted::paths::{
    components_of, deepest_mount, extension_chars, file_name_chars, is_under, parent_path,
    sorted_positions, text_key_of,
};
use sorted::state::summarize_media;
use sorted::types::MediaFile;

fn chars(s: &str) -> Vec<char> {
    s.chars().collect()
}

#[test]
fn components_skip_empty_and_current_pieces() {
    let parts: Vec<String> = components_of("/a//./b/").iter().map(|p| p.iter().collect()).collect();
    assert_eq!(parts, vec!["a".to_string(), "b".to_string()]);
    assert_eq!(file_name_chars("/a/b.JPG"), Some(chars("b.JPG")));
    assert_eq!(file_name_chars("/a/.."), None);
    assert_eq!(file_name_chars("/"), None);
    assert_eq!(extension_chars(&chars("b.JPG")), Some(chars("JPG")));
    assert_eq!(extension_chars(&chars(".hidden")), None);
    assert_eq!(extension_chars(&chars("archive.tar.gz")), Some(chars("gz")));
}

#[test]
fn parents_walk_up_to_the_root() {
    assert_eq!(parent_path("/a/b"), Some("/a".to_string()));
    assert_eq!(parent_path("/a"), Some("/".to_string()));
    assert_eq!(parent_path("/"), None);
    assert_eq!(parent_path(""), None);
    assert_eq!(parent_path("a"), Some("".to_string()));
    assert_eq!(parent_path("a/b/"), Some("a".to_string()));
}

#[test]
fn paths_lie_under_their_mount_points() {
    assert!(is_under("/media/card/DCIM", "/media/card"));
    assert!(is_under("/media/card", "/"));
    assert!(!is_under("/media/cardigan", "/media/card"));
    assert!(!is_under("media/card", "/media"));
    let mounts = vec!["/".to_string(), "/media/card".to_string(), "/media".to_string(), "/media/card/".to_string()];
    assert_eq!(deepest_mount("/media/card/DCIM", &mounts), Some(3));
    assert_eq!(deepest_mount("/home/u", &mounts), Some(0));
    assert_eq!(deepest_mount("relative", &mounts), None);
}

#[test]
fn keys_sort_stably() {
    let keys = vec![text_key_of("b"), text_key_of("a"), text_key_of("b"), text_key_of("")];
    assert_eq!(sorted_positions(&keys), vec![3, 1, 0, 2]);
}

#[test]
fn media_sizes_add_up() {
    let file = |n: u64| MediaFile { source_path: "/s".to_string(), relative_path: "s".to_string(), size_bytes: n };
    let s = summarize_media(&vec![file(2048), file(1)]).unwrap();
    assert_eq!(s.file_count, 2);
    assert_eq!(s.total_bytes, 2049);
    assert!(summarize_media(&vec![file(u64::MAX), file(1)]).is_none());
    assert_eq!(summarize_media(&vec![]).unwrap().total_bytes, 0);
}
