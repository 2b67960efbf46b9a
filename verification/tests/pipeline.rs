use dll_installer::LibError;
use dll_installer::dll::{Architecture, dest_path, parse_dll_name};
use dll_installer::extract::extract_download_url;
use dll_installer::resolve::{listing_url, resolve_pages};

fn section(arch: &str, href: &str) -> String {
    let mut s = String::new();
    s.push_str("<section class=\"file-info-grid\">");
    s.push_str("<div class=\"left-pane\">");
    s.push_str(&format!("<a href=\"{}\" data-ga-action=\"download\">download</a>", href));
    s.push_str("</div>");
    s.push_str(&format!("<div class=\"right-pane\"><p>7.0.1</p><p>{}</p><p>0.4 MB</p></div>", arch));
    s.push_str("</section>");
    s
}

#[test]
fn rejects_name_without_extension() {
    assert_eq!(parse_dll_name("xyz").unwrap_err(), LibError::Argument);
    assert_eq!(parse_dll_name("").unwrap_err(), LibError::Argument);
    assert_eq!(parse_dll_name("library.so").unwrap_err(), LibError::Argument);
    assert_eq!(parse_dll_name("dll").unwrap_err(), LibError::Argument);
}

#[test]
fn accepts_and_lowercases_name() {
    assert_eq!(parse_dll_name("XInput1_3.DLL").unwrap().name, "xinput1_3.dll");
    assert_eq!(parse_dll_name("msvcp140.dll").unwrap().name, "msvcp140.dll");
}

#[test]
fn missing_page_marker_is_not_found() {
    let body = format!("<html>error-404{}</html>", section("32", "/a/path"));
    assert_eq!(resolve_pages(&body).unwrap_err(), LibError::NotFound);
}

#[test]
fn resolves_both_architectures() {
    let body = format!("<html>{}{}</html>", section("32", "/a/path"), section("64", "/b/path"));
    let pair = resolve_pages(&body).unwrap();
    assert_eq!(pair.x32, Some("https://cn.dll-files.com/a/path".to_string()));
    assert_eq!(pair.x64, Some("https://cn.dll-files.com/b/path".to_string()));
}

#[test]
fn resolves_both_architectures_reversed_order() {
    let body = format!("<html>{}{}</html>", section("64", "/b/path"), section("32", "/a/path"));
    let pair = resolve_pages(&body).unwrap();
    assert_eq!(pair.x32, Some("https://cn.dll-files.com/a/path".to_string()));
    assert_eq!(pair.x64, Some("https://cn.dll-files.com/b/path".to_string()));
}

#[test]
fn first_section_wins_per_architecture() {
    let body = format!("<html>{}{}</html>", section("32", "/first"), section("32", "/second"));
    let pair = resolve_pages(&body).unwrap();
    assert_eq!(pair.x32, Some("https://cn.dll-files.com/first".to_string()));
    assert_eq!(pair.x64, None);
}

#[test]
fn empty_listing_resolves_to_nothing() {
    let pair = resolve_pages("<html><body>no entries here</body></html>").unwrap();
    assert_eq!(pair.x32, None);
    assert_eq!(pair.x64, None);
}

#[test]
fn section_without_meta_block_is_skipped() {
    let body = "<section class=\"file-info-grid\"><a href=\"/x\" data-ga-action=\"d\">get</a></section>";
    let pair = resolve_pages(body).unwrap();
    assert_eq!(pair.x32, None);
    assert_eq!(pair.x64, None);
}

#[test]
fn section_with_single_text_item_is_skipped() {
    let body = "<section class=\"file-info-grid\"><a href=\"/x\" data-ga-action=\"d\">get</a><div class=\"right-pane\"><p>32</p></div></section>";
    let pair = resolve_pages(body).unwrap();
    assert_eq!(pair.x32, None);
    assert_eq!(pair.x64, None);
}

#[test]
fn section_without_anchor_is_skipped() {
    let body = "<section class=\"file-info-grid\"><div class=\"right-pane\"><p>7.0</p><p>64</p></div></section>";
    let pair = resolve_pages(body).unwrap();
    assert_eq!(pair.x32, None);
    assert_eq!(pair.x64, None);
}

#[test]
fn unknown_architecture_tag_is_skipped() {
    let body = section("16", "/old/path");
    let pair = resolve_pages(&body).unwrap();
    assert_eq!(pair.x32, None);
    assert_eq!(pair.x64, None);
}

#[test]
fn markup_whitespace_may_be_a_newline() {
    let body = "<section class=\"file-info-grid\"><a href=\"/nl/path\"\ndata-ga-action=\"d\">get</a><div\nclass=\"right-pane\"><p>7.0</p><p>64</p></div></section>";
    let pair = resolve_pages(body).unwrap();
    assert_eq!(pair.x32, None);
    assert_eq!(pair.x64, Some("https://cn.dll-files.com/nl/path".to_string()));
}

#[test]
fn extracts_download_url_and_decodes_amp() {
    let body = "<script>var downloadUrl = \"http://x/y&amp;z\";</script>";
    assert_eq!(extract_download_url(body).unwrap(), "http://x/y&z");
}

#[test]
fn extracts_plain_download_url() {
    let body = "downloadUrl = \"https://host/file.zip?a=1\";";
    assert_eq!(extract_download_url(body).unwrap(), "https://host/file.zip?a=1");
}

#[test]
fn missing_download_url_is_not_found() {
    let body = "<script>var otherUrl = \"http://x\";</script>";
    assert_eq!(extract_download_url(body).unwrap_err(), LibError::NotFound);
}

#[test]
fn listing_url_is_base_slash_name_dot_html() {
    assert_eq!(listing_url("xinput1_3.dll"), "https://cn.dll-files.com/xinput1_3.dll.html");
}

#[test]
fn markup_whitespace_may_be_a_no_break_space() {
    let body = "<section class=\"file-info-grid\"><a href=\"/nb/path\"\u{a0}data-ga-action=\"d\">get</a><div\u{a0}class=\"right-pane\"><p>7.0</p><p>32</p></div></section>";
    let pair = resolve_pages(body).unwrap();
    assert_eq!(pair.x32, Some("https://cn.dll-files.com/nb/path".to_string()));
    assert_eq!(pair.x64, None);
}

#[test]
fn destination_paths_are_architecture_keyed() {
    assert_eq!(dest_path(Architecture::X32, "a.dll"), "C:\\Windows\\SysWOW64\\a.dll");
    assert_eq!(dest_path(Architecture::X64, "a.dll"), "C:\\Windows\\System32\\a.dll");
}
