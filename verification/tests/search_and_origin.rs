use obs_conventions::bytes;
use obs_conventions::marker;
use obs_conventions::origin;

fn v(s: &str) -> Vec<u8> {
    s.as_bytes().to_vec()
}

fn prefixes() -> Vec<Vec<u8>> {
    vec![v("// SAFETY:"), v("// Safety:")]
}

#[test]
fn contains_finds_an_embedded_token() {
    assert!(bytes::contains(&v("aa # Safety bb"), &v("# Safety")));
    assert!(bytes::contains(&v("# Safety"), &v("# Safety")));
    assert!(!bytes::contains(&v("# Safely and sound"), &v("# Safety")));
    assert!(!bytes::contains(&v("short"), &v("# Safety")));
    assert!(bytes::contains(&v("anything"), &v("")));
}

#[test]
fn prefix_matching_is_positional() {
    assert!(bytes::prefix_at(&v("abcdef"), 2, &v("cde")));
    assert!(!bytes::prefix_at(&v("abcdef"), 3, &v("cde")));
    assert!(!bytes::prefix_at(&v("abc"), 2, &v("cde")));
}

#[test]
fn marker_line_accepts_leading_blanks_only() {
    assert!(marker::has_marker_line(&v("   // SAFETY: fine\ncall();"), &prefixes()));
    assert!(marker::has_marker_line(&v("\t// Safety: fine"), &prefixes()));
    assert!(marker::has_marker_line(&v("x();\n// SAFETY: later line"), &prefixes()));
    assert!(!marker::has_marker_line(&v("x(); // SAFETY: mid-line"), &prefixes()));
    assert!(!marker::has_marker_line(&v("// safety: lowercase"), &prefixes()));
    assert!(!marker::has_marker_line(&v(""), &prefixes()));
}

#[test]
fn carriage_returns_count_as_blanks() {
    assert!(marker::has_marker_line(&v("x();\r\n// SAFETY: crlf\r\ncall();"), &prefixes()));
}

#[test]
fn exact_origin_is_strict() {
    assert!(origin::is_exact_origin(&v("libobs"), &v("libobs")));
    assert!(!origin::is_exact_origin(&v("libobs_helpers"), &v("libobs")));
    assert!(!origin::is_exact_origin(&v("libob"), &v("libobs")));
}

#[test]
fn family_origin_accepts_joined_suffixes() {
    assert!(origin::is_family_origin(&v("libobs"), &v("libobs")));
    assert!(origin::is_family_origin(&v("libobs-sys"), &v("libobs")));
    assert!(origin::is_family_origin(&v("libobs_window_helper"), &v("libobs")));
    assert!(!origin::is_family_origin(&v("libobsx"), &v("libobs")));
    assert!(!origin::is_family_origin(&v("lib"), &v("libobs")));
    assert!(!origin::is_family_origin(&v("other"), &v("libobs")));
}
