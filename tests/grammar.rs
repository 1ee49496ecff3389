use shex_ast::grammar::{
    comment, directive, directives, is_iri_ref, is_pn_chars, is_pn_chars_base, prefix_decl, shex_statement, tws,
    ShExStatement,
};

fn ok(rest: &str, text: &str) -> Result<(String, String), shex_ast::grammar::ParseError> {
    Ok((rest.to_string(), text.to_string()))
}

#[test]
fn test_comment() {
    assert_eq!(comment("#\r\na"), ok("\na", ""));
    assert_eq!(comment("#\n\ra"), ok("\ra", ""));
    assert_eq!(comment("#"), ok("", ""));
    assert_eq!(comment("#abc"), ok("", "abc"));
    assert_eq!(comment("#\n\n"), ok("\n", ""));
}

#[test]
fn test_prefix_id() {
    assert_eq!(
        prefix_decl("prefix a.b.c: <urn>"),
        Ok((
            "".to_string(),
            ShExStatement::PrefixDecl { alias: "a.b.c".to_string(), iri: "urn".to_string() }
        ))
    );
}

#[test]
fn comment_needs_a_hash() {
    assert!(comment("abc").is_err());
    assert!(comment("").is_err());
}

#[test]
fn whitespace_and_comments_are_skipped() {
    assert_eq!(tws("  \t# note\n  x y"), "x y");
    assert_eq!(tws("x"), "x");
    assert_eq!(tws("# only a comment"), "");
}

#[test]
fn prefix_declarations() {
    assert_eq!(
        prefix_decl("PREFIX : <http://e/> rest"),
        Ok((" rest".to_string(), ShExStatement::PrefixDecl { alias: "".to_string(), iri: "http://e/".to_string() }))
    );
    assert_eq!(
        directive("Prefix ex:#c\n<http://e/>"),
        Ok(("".to_string(), ShExStatement::PrefixDecl { alias: "ex".to_string(), iri: "http://e/".to_string() }))
    );
    assert!(prefix_decl("PREFIX ex <http://e/>").is_err());
    assert!(prefix_decl("PREFIX ex: <http://e/").is_err());
    assert!(prefix_decl("PREFIX ex: <http://e/a b>").is_err());
    assert!(prefix_decl("BASE <http://e/>").is_err());
    assert!(prefix_decl("PREFIX a..b: <x>").is_err());
}

#[test]
fn directives_are_read_in_sequence() {
    let (rest, sts) = directives("prefix a: <x>prefix b: <y> tail").unwrap();
    assert_eq!(rest, " tail");
    assert_eq!(
        sts,
        vec![
            ShExStatement::PrefixDecl { alias: "a".to_string(), iri: "x".to_string() },
            ShExStatement::PrefixDecl { alias: "b".to_string(), iri: "y".to_string() },
        ]
    );
    let (rest, sts) = shex_statement("nothing").unwrap();
    assert_eq!(rest, "nothing");
    assert!(sts.is_empty());
}

#[test]
fn character_classes() {
    assert!(is_pn_chars_base('a'));
    assert!(is_pn_chars_base('\u{00E9}'));
    assert!(!is_pn_chars_base('_'));
    assert!(is_pn_chars('_'));
    assert!(is_pn_chars('-'));
    assert!(is_pn_chars('7'));
    assert!(is_pn_chars('\u{00B7}'));
    assert!(!is_pn_chars('.'));
    assert!(is_iri_ref('a'));
    assert!(!is_iri_ref(' '));
    assert!(!is_iri_ref('>'));
}
