use donut::config::Config;
use donut::paths::{is_absolute, join};
use donut::text::{chars_of, push_decimal_i64, push_decimal_u64, string_from_chars};

fn cfg(d: Option<&str>) -> Config {
    Config { donut_dir: d.map(|s| s.as_bytes().to_vec()) }
}

fn b(s: &str) -> Vec<u8> {
    s.as_bytes().to_vec()
}

#[test]
fn default_config_has_no_directory() {
    assert!(Config::default().donut_dir.is_none());
}

#[test]
fn resolve_donut_dir_cases() {
    let none = cfg(None);
    assert_eq!(none.resolve_donut_dir(Some(b"/home/u"), b"/w"), b("/home/u/.donut"));
    assert_eq!(none.resolve_donut_dir(None, b"/w"), b(".donut"));
    assert_eq!(none.resolve_donut_dir(Some(&[b'/', 0xfe]), b"/w"), vec![b'/', 0xfe, b'/', b'.', b'd', b'o', b'n', b'u', b't']);
    let abs = cfg(Some("/srv/todos"));
    assert_eq!(abs.resolve_donut_dir(Some(b"/home/u"), b"/w"), b("/srv/todos"));
    let tilde = cfg(Some("~/Documents/todos"));
    assert_eq!(tilde.resolve_donut_dir(Some(b"/home/u"), b"/w"), b("/home/u/Documents/todos"));
    assert_eq!(tilde.resolve_donut_dir(None, b"/w"), b("/w/~/Documents/todos"));
    let rel = cfg(Some("notes"));
    assert_eq!(rel.resolve_donut_dir(Some(b"/home/u"), b"/w/"), b("/w/notes"));
    assert_eq!(rel.resolve_donut_dir(Some(b"/home/u"), b""), b("notes"));
}

#[test]
fn get_donut_dir_with_absolute_directory() {
    let abs = cfg(Some("/srv/todos"));
    assert_eq!(abs.get_donut_dir(b"/w"), b("/srv/todos"));
    let rel = cfg(Some("notes"));
    assert_eq!(rel.get_donut_dir(b"/w"), b("/w/notes"));
}

#[test]
fn get_donut_dir_defaults_to_the_home_directory() {
    let d = cfg(None).get_donut_dir(b"/w");
    assert!(d.ends_with(b".donut"));
    if let Some(h) = dirs::home_dir() {
        let h = h.into_os_string().into_encoded_bytes();
        assert_eq!(d, donut::paths::join(&h, b".donut"));
    }
}

#[test]
fn expand_tilde_cases() {
    assert_eq!(Config::expand_tilde(b"~/x", Some(b"/h")), b("/h/x"));
    assert_eq!(Config::expand_tilde(b"~x", Some(b"/h")), b("~x"));
    assert_eq!(Config::expand_tilde(b"~//x", Some(b"/h")), b("/x"));
    assert_eq!(Config::expand_tilde(b"~/x", None), b("~/x"));
}

#[test]
fn paths() {
    assert!(is_absolute(b"/a"));
    assert!(!is_absolute(b"a/b"));
    assert!(!is_absolute(b""));
    assert_eq!(join(b"a", b"b"), b("a/b"));
    assert_eq!(join(b"a/", b"b"), b("a/b"));
    assert_eq!(join(b"", b"b"), b("b"));
    assert_eq!(join(b"a", b"/b"), b("/b"));
    assert_eq!(join(b"a", b""), b("a/"));
}

#[test]
fn decimals() {
    let mut v = Vec::new();
    push_decimal_u64(&mut v, 0);
    v.push(' ');
    push_decimal_u64(&mut v, 1907);
    v.push(' ');
    push_decimal_i64(&mut v, -42);
    v.push(' ');
    push_decimal_i64(&mut v, i64::MIN);
    assert_eq!(string_from_chars(&v), "0 1907 -42 -9223372036854775808");
    assert_eq!(chars_of("añb"), vec!['a', 'ñ', 'b']);
}
