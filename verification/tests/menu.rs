use br0wse::menu::OpenBrowser;

#[test]
fn open_browser_actions_compare_by_their_url() {
    let first = OpenBrowser { url: "https://example.org/docs".to_string() };
    let same = first.clone();
    let other = OpenBrowser { url: "https://example.org/".to_string() };
    assert_eq!(first, same);
    assert_ne!(first, other);
    assert_eq!(same.url, "https://example.org/docs");
}
