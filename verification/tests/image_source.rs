use tcui::image_source::{image_source_kind, ImageSourceKind};

#[test]
fn web_sources_are_not_local() {
    assert_eq!(image_source_kind("https://example.com/a.png"), ImageSourceKind::Web);
    assert_eq!(image_source_kind("  <http://x/y.png>  "), ImageSourceKind::Web);
}

#[test]
fn file_urls_home_paths_and_plain_paths() {
    assert_eq!(image_source_kind("file:///tmp/a.png"), ImageSourceKind::FileUrl("/tmp/a.png".to_string()));
    assert_eq!(
        image_source_kind("~/Pictures/example.png"),
        ImageSourceKind::HomeRelative("Pictures/example.png".to_string())
    );
    assert_eq!(image_source_kind(" <<img/cat.png>> "), ImageSourceKind::Path("img/cat.png".to_string()));
    assert_eq!(image_source_kind(""), ImageSourceKind::Path(String::new()));
}
