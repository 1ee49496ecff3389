use shex_ast::compiled_schema_error::CompiledSchemaError;
use shex_ast::match_cond::{check_node_datatype, check_node_maybe_datatype, check_node_maybe_node_kind, check_node_node_kind, MatchCond, Pending, SingleCond};
use shex_ast::rdf::{Lang, Object, NodeKind, RDF_LANG_STRING, XSD_STRING};
use shex_ast::value_set::{
    IriExclusion, IriRefOrWildcard, LangOrWildcard, LanguageExclusion, LiteralExclusion, ObjectValue, StringOrWildcard,
    ValueSet, ValueSetValue,
};

#[test]
fn iri_stem_matches_by_prefix() {
    let v = ValueSetValue::IriStem { stem: "http://ex/".to_string() };
    assert!(v.check_value(&Object::iri("http://ex/a")));
    assert!(v.check_value(&Object::iri("http://ex/b")));
    assert!(!v.check_value(&Object::iri("http://other/a")));
    assert!(!v.check_value(&Object::str_literal("http://ex/a")));
}

#[test]
fn literal_stem_range_honours_exclusions() {
    let v = ValueSetValue::LiteralStemRange {
        stem: StringOrWildcard::String("ab".to_string()),
        exclusions: Some(vec![LiteralExclusion::Literal("abc".to_string())]),
    };
    assert!(v.check_value(&Object::str_literal("abx")));
    assert!(!v.check_value(&Object::str_literal("abc")));
    assert!(!v.check_value(&Object::str_literal("xab")));
    let w = ValueSetValue::LiteralStemRange {
        stem: StringOrWildcard::Wildcard { type_: "Wildcard".to_string() },
        exclusions: Some(vec![LiteralExclusion::LiteralStem("a".to_string())]),
    };
    assert!(w.check_value(&Object::str_literal("b")));
    assert!(!w.check_value(&Object::str_literal("abc")));
}

#[test]
fn iri_stem_range_honours_exclusions() {
    let v = ValueSetValue::IriStemRange {
        stem: IriRefOrWildcard::IriRef("http://ex/".to_string()),
        exclusions: Some(vec![IriExclusion::Iri("http://ex/a".to_string()), IriExclusion::IriStem("http://ex/x/".to_string())]),
    };
    assert!(v.check_value(&Object::iri("http://ex/b")));
    assert!(!v.check_value(&Object::iri("http://ex/a")));
    assert!(!v.check_value(&Object::iri("http://ex/x/1")));
    assert!(!v.check_value(&Object::iri("http://other/b")));
}

#[test]
fn language_values() {
    let en = ValueSetValue::language(Lang::new("en"));
    assert!(en.check_value(&Object::lang_literal("hi", "en")));
    assert!(!en.check_value(&Object::lang_literal("hi", "fr")));
    assert!(!en.check_value(&Object::str_literal("hi")));
    let stem = ValueSetValue::language_stem(Lang::new("en"));
    assert!(stem.check_value(&Object::lang_literal("hi", "en-GB")));
    assert!(!stem.check_value(&Object::lang_literal("hi", "fr")));
    let range = ValueSetValue::LanguageStemRange {
        stem: LangOrWildcard::Lang(Lang::new("en")),
        exclusions: Some(vec![LanguageExclusion::Language(Lang::new("en-US"))]),
    };
    assert!(range.check_value(&Object::lang_literal("hi", "en-GB")));
    assert!(!range.check_value(&Object::lang_literal("hi", "en-US")));
}

#[test]
fn exact_values() {
    let i = ValueSetValue::iri("http://ex/a");
    assert!(i.check_value(&Object::iri("http://ex/a")));
    assert!(!i.check_value(&Object::iri("http://ex/ab")));
    let l = ValueSetValue::literal("abc", None, None);
    assert!(l.check_value(&Object::str_literal("abc")));
    assert!(!l.check_value(&Object::lang_literal("abc", "en")));
    let typed = ValueSetValue::literal("1", None, Some("http://www.w3.org/2001/XMLSchema#integer".to_string()));
    assert!(typed.check_value(&Object::datatype_literal("1", "http://www.w3.org/2001/XMLSchema#integer")));
    assert!(!typed.check_value(&Object::str_literal("1")));
    let tagged = ValueSetValue::object_value(ObjectValue::ObjectLiteral {
        value: "chat".to_string(),
        language: Some(Lang::new("fr")),
        type_: None,
    });
    assert!(tagged.check_value(&Object::lang_literal("chat", "fr")));
    let stem = ValueSetValue::literal_stem("ch".to_string());
    assert!(stem.check_value(&Object::lang_literal("chat", "fr")));
}

#[test]
fn value_set_is_a_disjunction() {
    let mut vs = ValueSet::new();
    assert!(!vs.check_value(&Object::iri("http://ex/a")));
    vs.add_value(ValueSetValue::iri("http://ex/a"));
    vs.add_value(ValueSetValue::iri("http://ex/b"));
    assert!(vs.check_value(&Object::iri("http://ex/b")));
    assert!(!vs.check_value(&Object::iri("http://ex/c")));
    let cond = MatchCond::single(SingleCond::ValueSet(vs));
    assert_eq!(cond.matches(&Object::iri("http://ex/a")), Ok(Pending::new()));
    assert_eq!(
        cond.matches(&Object::iri("http://ex/c")),
        Err(CompiledSchemaError::ValueNotInSet { node: Object::iri("http://ex/c") })
    );
}

#[test]
fn string_literals_and_datatypes() {
    let xsd_string = XSD_STRING.to_string();
    let lang_string = RDF_LANG_STRING.to_string();
    assert_eq!(check_node_datatype(&Object::str_literal("abc"), &xsd_string), Ok(()));
    assert_eq!(check_node_datatype(&Object::lang_literal("abc", "en"), &lang_string), Ok(()));
    assert_eq!(
        check_node_datatype(&Object::lang_literal("abc", "en"), &xsd_string),
        Err(CompiledSchemaError::DatatypeDontMatchLangString {
            expected: xsd_string.clone(),
            lexical_form: "abc".to_string(),
            lang: Lang::new("en"),
        })
    );
    assert_eq!(
        check_node_datatype(&Object::str_literal("abc"), &lang_string),
        Err(CompiledSchemaError::DatatypeDontMatchString { expected: lang_string.clone(), lexical_form: "abc".to_string() })
    );
    let int = "http://www.w3.org/2001/XMLSchema#integer".to_string();
    assert_eq!(check_node_datatype(&Object::datatype_literal("1", &int), &int), Ok(()));
    assert_eq!(
        check_node_datatype(&Object::datatype_literal("1", &int), &xsd_string),
        Err(CompiledSchemaError::DatatypeDontMatch { expected: xsd_string.clone(), found: int.clone(), lexical_form: "1".to_string() })
    );
    assert_eq!(
        check_node_datatype(&Object::iri("http://ex/a"), &xsd_string),
        Err(CompiledSchemaError::DatatypeNoLiteral { expected: xsd_string.clone(), node: Object::iri("http://ex/a") })
    );
    assert_eq!(check_node_maybe_datatype(&Object::iri("http://ex/a"), &None), Ok(()));
}

#[test]
fn node_kinds() {
    let iri = Object::iri("http://ex/a");
    let b = Object::bnode("b");
    let lit = Object::str_literal("x");
    assert_eq!(check_node_node_kind(&iri, &NodeKind::Iri), Ok(()));
    assert_eq!(check_node_node_kind(&b, &NodeKind::Iri), Err(CompiledSchemaError::NodeKindIri { node: b.clone() }));
    assert_eq!(check_node_node_kind(&b, &NodeKind::BNode), Ok(()));
    assert_eq!(check_node_node_kind(&lit, &NodeKind::BNode), Err(CompiledSchemaError::NodeKindBNode { node: lit.clone() }));
    assert_eq!(check_node_node_kind(&lit, &NodeKind::Literal), Ok(()));
    assert_eq!(check_node_node_kind(&iri, &NodeKind::Literal), Err(CompiledSchemaError::NodeKindLiteral { node: iri.clone() }));
    assert_eq!(check_node_node_kind(&b, &NodeKind::NonLiteral), Ok(()));
    assert_eq!(check_node_node_kind(&lit, &NodeKind::NonLiteral), Err(CompiledSchemaError::NodeKindNonLiteral { node: lit.clone() }));
    assert_eq!(check_node_maybe_node_kind(&lit, &None), Ok(()));
}

#[test]
fn conjunction_reports_first_failure_in_order() {
    let cond = MatchCond {
        conds: vec![SingleCond::NodeKind(NodeKind::Literal), SingleCond::Datatype(XSD_STRING.to_string())],
    };
    assert_eq!(cond.matches(&Object::str_literal("a")), Ok(Pending::new()));
    assert_eq!(
        cond.matches(&Object::iri("http://ex/a")),
        Err(CompiledSchemaError::NodeKindLiteral { node: Object::iri("http://ex/a") })
    );
    assert_eq!(MatchCond::empty().matches(&Object::bnode("x")), Ok(Pending::new()));
}

#[test]
fn lang_shows_with_at_sign() {
    let l = Lang::new("en");
    assert_eq!(l.show(), "@en");
    assert_eq!(l.value(), "en");
}

#[test]
fn copied_members_keep_their_value() {
    let range = ValueSetValue::LiteralStemRange {
        stem: StringOrWildcard::String("ab".to_string()),
        exclusions: Some(vec![LiteralExclusion::Literal("abc".to_string())]),
    };
    let stem = ValueSetValue::literal_stem("ab".to_string());
    assert_eq!(range.copy(), range);
    assert_eq!(stem.copy(), stem);
    let set = ValueSet::from_values(&vec![range.clone(), stem.clone()]);
    assert_eq!(set.values, vec![range, stem]);
}
