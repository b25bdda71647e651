use pso2server::patch::{
    clean_path, file_info, file_update, management_file, patch_target, print_patchlist,
    sanitize_path, FileInfo, FileUpdate, PatchSettings, PatchTarget, PathPart,
};

fn normal(s: &str) -> PathPart {
    PathPart::Normal(s.to_string())
}

#[test]
fn cleaning_paths() {
    let parts = vec![PathPart::RootDir, normal("a"), PathPart::ParentDir, PathPart::ParentDir, normal("b"), PathPart::CurDir, normal("c")];
    assert_eq!(clean_path(&parts), vec!["b", "c"]);
    assert!(clean_path(&vec![PathPart::ParentDir]).is_empty());
    assert_eq!(sanitize_path("../../etc/passwd"), vec!["etc", "passwd"]);
    assert_eq!(sanitize_path("/data/./win32/../a.ice"), vec!["data", "a.ice"]);
    assert_eq!(sanitize_path("patchlist.txt"), vec!["patchlist.txt"]);
    assert!(sanitize_path("").is_empty());
    assert_eq!(sanitize_path("data/win32/a.ice"), vec!["data", "win32", "a.ice"]);
}

#[test]
fn choosing_targets() {
    let list = vec!["patchlist.txt".to_string()];
    let file = vec!["data".to_string(), "x.ice".to_string()];
    assert_eq!(patch_target("m", &list, "m", "p"), PatchTarget::MasterList);
    assert_eq!(patch_target("p", &list, "m", "p"), PatchTarget::PatchList);
    assert_eq!(patch_target("m", &file, "m", "p"), PatchTarget::MasterFile);
    assert_eq!(patch_target("p", &file, "m", "p"), PatchTarget::PatchFile);
    assert_eq!(patch_target("q", &list, "m", "p"), PatchTarget::Forbidden);
    let nested = vec!["a".to_string(), "patchlist.txt".to_string()];
    assert_eq!(patch_target("m", &nested, "m", "p"), PatchTarget::MasterFile);
}

fn info(hash: u64, path: &str, size: u64, date: u128) -> FileInfo {
    FileInfo { path_hash: hash, path: path.to_string(), hash: "AB".to_string(), size, modify_date: date }
}

#[test]
fn patch_lists() {
    let files = vec![info(1, "data/a.ice", 1024, 0), info(2, "b.txt", 0, 0)];
    assert_eq!(print_patchlist(&files), "data/a.ice\tAB\t1024\tp\nb.txt\tAB\t0\tp\n");
    assert_eq!(print_patchlist(&vec![]), "");
}

#[test]
fn digests_come_from_md5() {
    let f = file_info(9, "x".to_string(), b"abc", 5);
    assert_eq!(f.hash, "900150983CD24FB0D6963F7D28E17F72");
    assert_eq!(f.size, 3);
    assert_eq!((f.path_hash, f.modify_date), (9, 5));
    let empty = file_info(1, "e".to_string(), b"", 0);
    assert_eq!(empty.hash, "D41D8CD98F00B204E9800998ECF8427E");
}

#[test]
fn file_updates() {
    let files = vec![info(1, "a", 1, 10), info(2, "b", 1, 20)];
    assert_eq!(file_update(&files, 2, "b", 20), FileUpdate::Unchanged(1));
    assert_eq!(file_update(&files, 2, "b", 21), FileUpdate::Replace(1));
    assert_eq!(file_update(&files, 2, "c", 20), FileUpdate::Replace(1));
    assert_eq!(file_update(&files, 3, "c", 20), FileUpdate::Append);
}

#[test]
fn management_text() {
    let s = PatchSettings {
        domain: "example.org".to_string(),
        master_url: "master".to_string(),
        patch_url: "patch".to_string(),
        port: None,
        output_port: true,
    };
    let text = management_file(&s);
    assert!(text.starts_with("IsInMaintenance=0\nIsExpired=0\n"));
    assert!(text.contains("MasterURL=http://example.org:4040/patch_prod/master/patches/\n"));
    assert!(text.contains("PatchURL=http://example.org:4040/patch_prod/patch/patches/\n"));
    assert!(text.ends_with("ForceBootParamSteam=0\n"));
    assert_eq!(text.lines().count(), 21);
    let quiet = PatchSettings { port: Some(80), output_port: false, ..s };
    assert!(management_file(&quiet).contains("MasterURL=http://example.org/patch_prod/master/patches/\n"));
}

#[test]
fn cleaned_names_never_climb() {
    for req in ["../../etc/passwd", "a/./b/../../../c", "//x//y/", "./.././"] {
        for name in sanitize_path(req) {
            assert!(!name.is_empty() && name != "." && name != ".." && !name.contains('/'));
        }
    }
    assert_eq!(sanitize_path("a//b/./c/"), vec!["a", "b", "c"]);
}
