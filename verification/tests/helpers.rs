use rellr::libs::helpers::{check_files_existence, to_abs_path, to_path_str};
use rellr::libs::pattern::is_valid;
use rellr::libs::text::{clone_opt, is_blank, join_strings, join_strs};

#[test]
fn path_parts_are_joined_with_slashes() {
    assert_eq!(to_path_str(vec!["a", "b", "c.txt"]), "a/b/c.txt");
    assert_eq!(to_path_str(vec!["only"]), "only");
    assert_eq!(to_path_str(vec![]), "");
}

#[test]
fn leading_separators_are_taken_off() {
    assert_eq!(to_path_str(vec!["", "Cargo.toml"]), "Cargo.toml");
    assert_eq!(to_path_str(vec![".", "Cargo.toml"]), "Cargo.toml");
    assert_eq!(to_path_str(vec!["./", "Cargo.toml"]), "Cargo.toml");
    assert_eq!(to_path_str(vec!["/", "/", "x"]), "x");
    assert_eq!(to_path_str(vec![".//./a", "b"]), "a/b");
}

#[test]
fn only_the_front_of_a_path_is_changed() {
    assert_eq!(to_path_str(vec!["a/./b", "c"]), "a/./b/c");
    assert_eq!(to_path_str(vec!["..", "x"]), "../x");
    assert_eq!(to_path_str(vec![".hidden", "x"]), ".hidden/x");
}

#[test]
fn backslashes_become_slashes() {
    assert_eq!(to_path_str(vec!["a\\b", "c"]), "a/b/c");
    assert_eq!(to_path_str(vec![".\\a", "b"]), "a/b");
    assert_eq!(to_path_str(vec!["\\\\server", "share"]), "server/share");
}

#[test]
fn missing_files_are_listed_in_order() {
    let files = vec!["a".to_string(), "b".to_string(), "c".to_string(), "d".to_string()];
    assert_eq!(check_files_existence(&files, &vec![true, false, true, false]), vec!["b", "d"]);
    assert_eq!(check_files_existence(&files, &vec![true; 4]), Vec::<String>::new());
    assert_eq!(check_files_existence(&files, &vec![false; 4]), files);
    assert_eq!(check_files_existence(&vec![], &vec![]), Vec::<String>::new());
}

#[test]
fn relative_path_is_made_absolute() {
    assert_eq!(to_abs_path("a/b", "/home/user"), Some("/home/user/a/b".to_string()));
    assert_eq!(to_abs_path("./a", "/home/user"), Some("/home/user/a".to_string()));
    assert_eq!(to_abs_path("../x", "/home/user"), Some("/home/x".to_string()));
    assert_eq!(to_abs_path("", "/home/user"), Some("/home/user".to_string()));
}

#[test]
fn absolute_path_stays() {
    assert_eq!(to_abs_path("/etc/x", "/home/user"), Some("/etc/x".to_string()));
    assert_eq!(to_abs_path("/a/../b", "/home/user"), Some("/b".to_string()));
}

#[test]
fn a_working_directory_that_is_not_rooted_gives_nothing() {
    assert_eq!(to_abs_path("a", "home/user"), None);
    assert_eq!(to_abs_path("a", ""), None);
    assert_eq!(to_abs_path("..", "x"), None);
}

#[test]
fn patterns_are_told_from_other_text() {
    assert!(is_valid("^v[0-9]+"));
    assert!(is_valid(""));
    assert!(!is_valid("("));
    assert!(!is_valid("[a-"));
}

#[test]
fn blank_text() {
    assert!(is_blank(""));
    assert!(is_blank("  \t\n"));
    assert!(is_blank("\u{a0}\u{3000}"));
    assert!(!is_blank(" a "));
    assert!(!is_blank("_"));
}

#[test]
fn parts_are_joined_with_the_separator_between_them() {
    assert_eq!(join_strings(&vec![], '\n'), "");
    assert_eq!(join_strings(&vec!["a".to_string()], '\n'), "a");
    assert_eq!(
        join_strings(&vec!["a".to_string(), "".to_string(), "b".to_string()], '\n'),
        "a\n\nb"
    );
    assert_eq!(join_strs(&vec!["x", "y", "z"], '/'), "x/y/z");
    assert_eq!(join_strs(&vec!["", ""], '.'), ".");
}

#[test]
fn copies_are_equal() {
    assert_eq!(clone_opt(&None), None);
    assert_eq!(clone_opt(&Some("x".to_string())), Some("x".to_string()));
}

#[test]
fn an_empty_path_is_the_working_directory() {
    assert_eq!(to_abs_path("", "/"), Some("/".to_string()));
    assert_eq!(to_abs_path("", "/srv/www/"), Some("/srv/www/".to_string()));
    assert_eq!(to_abs_path("", "/a/../b"), Some("/a/../b".to_string()));
}

#[test]
fn every_rooted_working_directory_gives_a_path() {
    for path in ["", ".", "..", "../..", "a", "./a/../..", "/", "//x", "a//b/", "é/ü"] {
        for cwd in ["/", "//", "/a", "/a/b/", "/é"] {
            assert!(to_abs_path(path, cwd).is_some(), "{:?} against {:?}", path, cwd);
        }
    }
}

#[test]
fn white_space_is_what_the_standard_library_says() {
    let listed = |c: char| {
        matches!(
            c,
            '\u{9}'..='\u{d}'
                | ' '
                | '\u{85}'
                | '\u{a0}'
                | '\u{1680}'
                | '\u{2000}'..='\u{200a}'
                | '\u{2028}'
                | '\u{2029}'
                | '\u{202f}'
                | '\u{205f}'
                | '\u{3000}'
        )
    };
    let mut count = 0;
    for code in 0..=0x10ffffu32 {
        if let Some(c) = char::from_u32(code) {
            assert_eq!(c.is_whitespace(), listed(c), "U+{:04X}", code);
            if listed(c) {
                count += 1;
                assert!(is_blank(&c.to_string()), "U+{:04X}", code);
            }
        }
    }
    assert_eq!(count, 25);
    for c in ['a', '0', '_', '\u{0}', '\u{200b}', '\u{feff}', '\u{180e}'] {
        assert!(!is_blank(&c.to_string()));
    }
}
