use lazyarchbuild::{contains_text, FetchError, PackageStatus};

fn row(parts: &[&str]) -> Vec<String> {
    parts.iter().map(|s| s.to_string()).collect()
}

#[test]
fn substring_search() {
    assert!(contains_text("FTBFS: qemu timeout", "FTBFS"));
    assert!(contains_text("is a Leaf package", "Leaf package"));
    assert!(contains_text("abc", ""));
    assert!(!contains_text("ftbfs", "FTBFS"));
    assert!(!contains_text("FTBF", "FTBFS"));
}

#[test]
fn entry_from_three_segments() {
    let s = PackageStatus::from(&["core", "bear", "FTBFS: qemu timeout", "extra"]);
    assert_eq!(s.repo, "core");
    assert_eq!(s.pkgname, "bear");
    assert_eq!(s.status, "FTBFS: qemu timeout");
}

#[test]
fn rows_are_filtered_by_status() {
    let rows = vec![
        row(&["core", "bear", "FTBFS: qemu timeout"]),
        row(&["extra", "zlib", "Up to date"]),
        row(&["community", "libaio", "Leaf package"]),
    ];
    let entries = PackageStatus::parse_rows(&rows).unwrap();
    assert_eq!(entries.len(), 2);
    assert_eq!(entries[0].pkgname, "bear");
    assert_eq!(entries[0].repo, "core");
    assert_eq!(entries[1].pkgname, "libaio");
    assert_eq!(entries[1].status, "Leaf package");
}

#[test]
fn short_row_is_malformed() {
    let rows = vec![row(&["core", "bear", "FTBFS"]), row(&["core", "zlib"])];
    assert!(matches!(PackageStatus::parse_rows(&rows), Err(FetchError::MalformedRow)));
}

#[test]
fn no_rows_no_entries() {
    assert!(PackageStatus::parse_rows(&Vec::new()).unwrap().is_empty());
}

#[test]
fn page_rows_are_parsed() {
    let html = "<table><tr><td>core</td><td>bear</td><td>FTBFS: qemu timeout</td></tr>\
                <tr><td>extra</td><td>zlib</td><td>Up to date</td></tr>\
                <tr><td>extra</td><td>libaio</td><td>Leaf package</td></tr></table>";
    let entries = PackageStatus::parse_page(html).unwrap();
    assert_eq!(entries.len(), 2);
    assert_eq!(entries[0].repo, "core");
    assert_eq!(entries[0].pkgname, "bear");
    assert_eq!(entries[0].status, "FTBFS: qemu timeout");
    assert_eq!(entries[1].pkgname, "libaio");
}

#[test]
fn page_with_short_row_is_malformed() {
    let html = "<table><tr><td>core</td><td>bear</td></tr></table>";
    assert!(matches!(PackageStatus::parse_page(html), Err(FetchError::MalformedRow)));
}
