use vstd::prelude::*;
use crate::rdf::{Lang, Literal, Object, RDF_LANG_STRING, XSD_STRING};
use crate::text::{copy_string, is_prefix, starts_with, str_eq};

verus! {

/// A stem string, or the wildcard that every value matches.
#[derive(PartialEq, Eq, Debug, Clone)]
pub enum StringOrWildcard {
    String(String),
    Wildcard { type_: String },
}

/// An IRI stem, or the wildcard that every IRI matches.
#[derive(PartialEq, Eq, Debug, Clone)]
pub enum IriRefOrWildcard {
    IriRef(String),
    Wildcard { type_: String },
}

/// A language stem, or the wildcard that every language tag matches.
#[derive(PartialEq, Eq, Debug, Clone)]
pub enum LangOrWildcard {
    Lang(Lang),
    Wildcard { type_: String },
}

/// What a literal stem range leaves out: one lexical form, or all those with a stem.
#[derive(PartialEq, Eq, Debug, Clone)]
pub enum LiteralExclusion {
    Literal(String),
    LiteralStem(String),
}

/// What an IRI stem range leaves out: one IRI, or all those with a stem.
#[derive(PartialEq, Eq, Debug, Clone)]
pub enum IriExclusion {
    Iri(String),
    IriStem(String),
}

/// What a language stem range leaves out: one tag, or all those with a stem.
#[derive(PartialEq, Eq, Debug, Clone)]
pub enum LanguageExclusion {
    Language(Lang),
    LanguageStem(Lang),
}

/// One exact value: an IRI, or a literal with its optional language tag and datatype.
#[derive(PartialEq, Eq, Debug, Clone)]
pub enum ObjectValue {
    IriRef(String),
    ObjectLiteral { value: String, language: Option<Lang>, type_: Option<String> },
}

/// One member of a value set.
#[derive(PartialEq, Eq, Debug, Clone)]
pub enum ValueSetValue {
    IriStem { stem: String },
    IriStemRange { stem: IriRefOrWildcard, exclusions: Option<Vec<IriExclusion>> },
    LiteralStem { stem: String },
    LiteralStemRange { stem: StringOrWildcard, exclusions: Option<Vec<LiteralExclusion>> },
    Language { language_tag: Lang },
    LanguageStem { stem: Lang },
    LanguageStemRange { stem: LangOrWildcard, exclusions: Option<Vec<LanguageExclusion>> },
    ObjectValue(ObjectValue),
}

/// A disjunction of acceptable values.
#[derive(PartialEq, Eq, Debug, Clone)]
pub struct ValueSet {
    pub values: Vec<ValueSetValue>,
}

/// The datatype of a literal; plain strings are `xsd:string`, tagged ones `rdf:langString`.
pub open spec fn literal_datatype(lit: Literal) -> Seq<char> {
    match lit {
        Literal::DatatypeLiteral { datatype, .. } => datatype@,
        Literal::StringLiteral { lang: None, .. } => XSD_STRING@,
        Literal::StringLiteral { lang: Some(_), .. } => RDF_LANG_STRING@,
    }
}

/// The language tag of a literal, if it has one.
pub open spec fn literal_lang(lit: Literal) -> Option<Seq<char>> {
    match lit {
        Literal::StringLiteral { lang: Some(l), .. } => Some(l.lang@),
        _ => None,
    }
}

pub open spec fn iri_excluded(e: IriExclusion, iri: Seq<char>) -> bool {
    match e {
        IriExclusion::Iri(s) => s@ == iri,
        IriExclusion::IriStem(s) => is_prefix(s@, iri),
    }
}

pub open spec fn literal_excluded(e: LiteralExclusion, lex: Seq<char>) -> bool {
    match e {
        LiteralExclusion::Literal(s) => s@ == lex,
        LiteralExclusion::LiteralStem(s) => is_prefix(s@, lex),
    }
}

pub open spec fn language_excluded(e: LanguageExclusion, tag: Seq<char>) -> bool {
    match e {
        LanguageExclusion::Language(l) => l.lang@ == tag,
        LanguageExclusion::LanguageStem(l) => is_prefix(l.lang@, tag),
    }
}

/// No exclusion of the list leaves `iri` out.
pub open spec fn iri_kept_by(v: Seq<IriExclusion>, iri: Seq<char>) -> bool {
    forall|i: int| 0 <= i < v.len() ==> !iri_excluded(#[trigger] v[i], iri)
}

pub open spec fn literal_kept_by(v: Seq<LiteralExclusion>, lex: Seq<char>) -> bool {
    forall|i: int| 0 <= i < v.len() ==> !literal_excluded(#[trigger] v[i], lex)
}

pub open spec fn language_kept_by(v: Seq<LanguageExclusion>, tag: Seq<char>) -> bool {
    forall|i: int| 0 <= i < v.len() ==> !language_excluded(#[trigger] v[i], tag)
}

/// No exclusion, if there are any, leaves `iri` out.
pub open spec fn iri_kept(ex: Option<Vec<IriExclusion>>, iri: Seq<char>) -> bool {
    match ex {
        None => true,
        Some(v) => iri_kept_by(v@, iri),
    }
}

pub open spec fn literal_kept(ex: Option<Vec<LiteralExclusion>>, lex: Seq<char>) -> bool {
    match ex {
        None => true,
        Some(v) => literal_kept_by(v@, lex),
    }
}

pub open spec fn language_kept(ex: Option<Vec<LanguageExclusion>>, tag: Seq<char>) -> bool {
    match ex {
        None => true,
        Some(v) => language_kept_by(v@, tag),
    }
}

/// The two lists of exclusions are both absent, or both present with the same members.
pub open spec fn same_exclusions<T>(a: Option<Vec<T>>, b: Option<Vec<T>>) -> bool {
    match (a, b) {
        (None, None) => true,
        (Some(x), Some(y)) => x@ == y@,
        _ => false,
    }
}

/// The two members are the same value: the same variant with the same fields, lists of
/// exclusions compared by their members.
pub open spec fn same_value(a: ValueSetValue, b: ValueSetValue) -> bool {
    match (a, b) {
        (
            ValueSetValue::IriStemRange { stem: s1, exclusions: e1 },
            ValueSetValue::IriStemRange { stem: s2, exclusions: e2 },
        ) => s1 == s2 && same_exclusions(e1, e2),
        (
            ValueSetValue::LiteralStemRange { stem: s1, exclusions: e1 },
            ValueSetValue::LiteralStemRange { stem: s2, exclusions: e2 },
        ) => s1 == s2 && same_exclusions(e1, e2),
        (
            ValueSetValue::LanguageStemRange { stem: s1, exclusions: e1 },
            ValueSetValue::LanguageStemRange { stem: s2, exclusions: e2 },
        ) => s1 == s2 && same_exclusions(e1, e2),
        _ => a == b,
    }
}

/// Whether `node` is one of the values that `v` describes.
pub open spec fn value_matches(v: ValueSetValue, node: Object) -> bool {
    match v {
        ValueSetValue::IriStem { stem } => node matches Object::Iri { iri } && is_prefix(stem@, iri@),
        ValueSetValue::IriStemRange { stem, exclusions } => node matches Object::Iri { iri } && (
        match stem {
            IriRefOrWildcard::IriRef(s) => is_prefix(s@, iri@),
            IriRefOrWildcard::Wildcard { .. } => true,
        }) && iri_kept(exclusions, iri@),
        ValueSetValue::LiteralStem { stem } => node matches Object::Literal(lit) && is_prefix(
            stem@,
            lit.spec_lexical_form(),
        ),
        ValueSetValue::LiteralStemRange { stem, exclusions } => node matches Object::Literal(lit) && (
        match stem {
            StringOrWildcard::String(s) => is_prefix(s@, lit.spec_lexical_form()),
            StringOrWildcard::Wildcard { .. } => true,
        }) && literal_kept(exclusions, lit.spec_lexical_form()),
        ValueSetValue::Language { language_tag } => node matches Object::Literal(lit) && literal_lang(
            lit,
        ) == Some(language_tag.lang@),
        ValueSetValue::LanguageStem { stem } => node matches Object::Literal(lit) && literal_lang(
            lit,
        ) is Some && is_prefix(stem.lang@, literal_lang(lit)->0),
        ValueSetValue::LanguageStemRange { stem, exclusions } => node matches Object::Literal(lit)
            && literal_lang(lit) is Some && (match stem {
            LangOrWildcard::Lang(l) => is_prefix(l.lang@, literal_lang(lit)->0),
            LangOrWildcard::Wildcard { .. } => true,
        }) && language_kept(exclusions, literal_lang(lit)->0),
        ValueSetValue::ObjectValue(ObjectValue::IriRef(s)) => node matches Object::Iri { iri }
            && iri@ == s@,
        ValueSetValue::ObjectValue(ObjectValue::ObjectLiteral { value, language, type_ }) => {
            &&& node matches Object::Literal(lit)
            &&& lit.spec_lexical_form() == value@
            &&& literal_lang(lit) == match language {
                Some(l) => Some(l.lang@),
                None => None::<Seq<char>>,
            }
            &&& (type_ matches Some(t) ==> literal_datatype(lit) == t@)
        },
    }
}

/// Whether some member of `values` accepts `node`.
pub open spec fn in_value_set(values: Seq<ValueSetValue>, node: Object) -> bool {
    exists|i: int| 0 <= i < values.len() && value_matches(#[trigger] values[i], node)
}

fn is_iri_kept(v: &Vec<IriExclusion>, iri: &String) -> (r: bool)
    ensures
        r == iri_kept_by(v@, iri@),
{
    let mut i: usize = 0;
    while i < v.len()
        invariant
            forall|j: int| 0 <= j < i ==> !iri_excluded(#[trigger] v@[j], iri@),
        decreases v.len() - i,
    {
        let hit = match &v[i] {
            IriExclusion::Iri(s) => str_eq(s.as_str(), iri.as_str()),
            IriExclusion::IriStem(s) => starts_with(iri.as_str(), s.as_str()),
        };
        if hit {
            assert(iri_excluded(v@[i as int], iri@));
            return false;
        }
        i = i + 1;
    }
    true
}

fn is_literal_kept(v: &Vec<LiteralExclusion>, lex: &String) -> (r: bool)
    ensures
        r == literal_kept_by(v@, lex@),
{
    let mut i: usize = 0;
    while i < v.len()
        invariant
            forall|j: int| 0 <= j < i ==> !literal_excluded(#[trigger] v@[j], lex@),
        decreases v.len() - i,
    {
        let hit = match &v[i] {
            LiteralExclusion::Literal(s) => str_eq(s.as_str(), lex.as_str()),
            LiteralExclusion::LiteralStem(s) => starts_with(lex.as_str(), s.as_str()),
        };
        if hit {
            assert(literal_excluded(v@[i as int], lex@));
            return false;
        }
        i = i + 1;
    }
    true
}

fn is_language_kept(v: &Vec<LanguageExclusion>, tag: &String) -> (r: bool)
    ensures
        r == language_kept_by(v@, tag@),
{
    let mut i: usize = 0;
    while i < v.len()
        invariant
            forall|j: int| 0 <= j < i ==> !language_excluded(#[trigger] v@[j], tag@),
        decreases v.len() - i,
    {
        let hit = match &v[i] {
            LanguageExclusion::Language(l) => str_eq(l.lang.as_str(), tag.as_str()),
            LanguageExclusion::LanguageStem(l) => starts_with(tag.as_str(), l.lang.as_str()),
        };
        if hit {
            assert(language_excluded(v@[i as int], tag@));
            return false;
        }
        i = i + 1;
    }
    true
}

/// Whether the literal has the datatype `dt`.
pub fn literal_has_datatype(lit: &Literal, dt: &str) -> (r: bool)
    ensures
        r == (literal_datatype(*lit) == dt@),
{
    match lit {
        Literal::DatatypeLiteral { datatype, .. } => str_eq(datatype.as_str(), dt),
        Literal::StringLiteral { lang: None, .. } => str_eq(XSD_STRING, dt),
        Literal::StringLiteral { lang: Some(_), .. } => str_eq(RDF_LANG_STRING, dt),
    }
}

fn literal_lang_is(lit: &Literal, language: &Option<Lang>) -> (r: bool)
    ensures
        r == (literal_lang(*lit) == match *language {
            Some(l) => Some(l.lang@),
            None => None::<Seq<char>>,
        }),
{
    match (lit, language) {
        (Literal::StringLiteral { lang: Some(l1), .. }, Some(l2)) => str_eq(l1.lang.as_str(), l2.lang.as_str()),
        (Literal::StringLiteral { lang: Some(_), .. }, None) => false,
        (Literal::DatatypeLiteral { .. }, None) => true,
        (Literal::StringLiteral { lang: None, .. }, None) => true,
        (_, Some(_)) => false,
    }
}

impl ValueSetValue {
    pub fn iri(iri: &str) -> (r: ValueSetValue)
        ensures
            r matches ValueSetValue::ObjectValue(ObjectValue::IriRef(s)) && s@ == iri@,
    {
        ValueSetValue::ObjectValue(ObjectValue::IriRef(String::from_str(iri)))
    }

    pub fn literal(value: &str, language: Option<Lang>, type_: Option<String>) -> (r: ValueSetValue)
        ensures
            r matches ValueSetValue::ObjectValue(
                ObjectValue::ObjectLiteral { value: v, language: l, type_: t },
            ) && v@ == value@ && l == language && t == type_,
    {
        ValueSetValue::ObjectValue(
            ObjectValue::ObjectLiteral { value: String::from_str(value), language, type_ },
        )
    }

    pub fn object_value(value: ObjectValue) -> (r: ValueSetValue)
        ensures
            r == ValueSetValue::ObjectValue(value),
    {
        ValueSetValue::ObjectValue(value)
    }

    pub fn language(lang: Lang) -> (r: ValueSetValue)
        ensures
            r == (ValueSetValue::Language { language_tag: lang }),
    {
        ValueSetValue::Language { language_tag: lang }
    }

    pub fn language_stem(lang: Lang) -> (r: ValueSetValue)
        ensures
            r == (ValueSetValue::LanguageStem { stem: lang }),
    {
        ValueSetValue::LanguageStem { stem: lang }
    }

    pub fn literal_stem(stem: String) -> (r: ValueSetValue)
        ensures
            r == (ValueSetValue::LiteralStem { stem }),
    {
        ValueSetValue::LiteralStem { stem }
    }

    /// Whether `node` is one of the values that this member describes.
    pub fn check_value(&self, node: &Object) -> (r: bool)
        ensures
            r == value_matches(*self, *node),
    {
        match self {
            ValueSetValue::IriStem { stem } => match node {
                Object::Iri { iri } => starts_with(iri.as_str(), stem.as_str()),
                _ => false,
            },
            ValueSetValue::IriStemRange { stem, exclusions } => match node {
                Object::Iri { iri } => {
                    let in_stem = match stem {
                        IriRefOrWildcard::IriRef(s) => starts_with(iri.as_str(), s.as_str()),
                        IriRefOrWildcard::Wildcard { .. } => true,
                    };
                    in_stem && match exclusions {
                        Some(v) => is_iri_kept(v, iri),
                        None => true,
                    }
                },
                _ => false,
            },
            ValueSetValue::LiteralStem { stem } => match node {
                Object::Literal(lit) => starts_with(lit.lexical_form().as_str(), stem.as_str()),
                _ => false,
            },
            ValueSetValue::LiteralStemRange { stem, exclusions } => match node {
                Object::Literal(lit) => {
                    let lex = lit.lexical_form();
                    let in_stem = match stem {
                        StringOrWildcard::String(s) => starts_with(lex.as_str(), s.as_str()),
                        StringOrWildcard::Wildcard { .. } => true,
                    };
                    in_stem && match exclusions {
                        Some(v) => is_literal_kept(v, lex),
                        None => true,
                    }
                },
                _ => false,
            },
            ValueSetValue::Language { language_tag } => match node {
                Object::Literal(Literal::StringLiteral { lang: Some(l), .. }) => str_eq(
                    l.lang.as_str(),
                    language_tag.lang.as_str(),
                ),
                _ => false,
            },
            ValueSetValue::LanguageStem { stem } => match node {
                Object::Literal(Literal::StringLiteral { lang: Some(l), .. }) => starts_with(
                    l.lang.as_str(),
                    stem.lang.as_str(),
                ),
                _ => false,
            },
            ValueSetValue::LanguageStemRange { stem, exclusions } => match node {
                Object::Literal(Literal::StringLiteral { lang: Some(l), .. }) => {
                    let in_stem = match stem {
                        LangOrWildcard::Lang(s) => starts_with(l.lang.as_str(), s.lang.as_str()),
                        LangOrWildcard::Wildcard { .. } => true,
                    };
                    in_stem && match exclusions {
                        Some(v) => is_language_kept(v, &l.lang),
                        None => true,
                    }
                },
                _ => false,
            },
            ValueSetValue::ObjectValue(ObjectValue::IriRef(s)) => match node {
                Object::Iri { iri } => str_eq(iri.as_str(), s.as_str()),
                _ => false,
            },
            ValueSetValue::ObjectValue(ObjectValue::ObjectLiteral { value, language, type_ }) => {
                match node {
                    Object::Literal(lit) => {
                        str_eq(lit.lexical_form().as_str(), value.as_str()) && literal_lang_is(
                            lit,
                            language,
                        ) && match type_ {
                            Some(t) => literal_has_datatype(lit, t.as_str()),
                            None => true,
                        }
                    },
                    _ => false,
                }
            },
        }
    }
}

impl ValueSet {
    pub fn new() -> (r: ValueSet)
        ensures
            r.values@.len() == 0,
    {
        ValueSet { values: Vec::new() }
    }

    pub fn add_value(&mut self, value: ValueSetValue)
        ensures
            final(self).values@ == old(self).values@.push(value),
    {
        self.values.push(value);
    }

    /// Whether some member of the set accepts `node`.
    pub fn check_value(&self, node: &Object) -> (r: bool)
        ensures
            r == in_value_set(self.values@, *node),
    {
        let mut i: usize = 0;
        while i < self.values.len()
            invariant
                forall|j: int| 0 <= j < i ==> !value_matches(#[trigger] self.values@[j], *node),
            decreases self.values.len() - i,
        {
            if self.values[i].check_value(node) {
                return true;
            }
            i = i + 1;
        }
        false
    }
}

/// Members that are the same value accept the same nodes.
pub proof fn lemma_same_value_matches(a: ValueSetValue, b: ValueSetValue)
    requires
        same_value(a, b),
    ensures
        forall|n: Object| value_matches(a, n) == value_matches(b, n),
{
}

fn copy_iri_exclusions(v: &Vec<IriExclusion>) -> (r: Vec<IriExclusion>)
    ensures
        r@ == v@,
{
    let mut r: Vec<IriExclusion> = Vec::new();
    let mut i: usize = 0;
    while i < v.len()
        invariant
            0 <= i <= v@.len(),
            r@ == v@.take(i as int),
        decreases v.len() - i,
    {
        let e = match &v[i] {
            IriExclusion::Iri(s) => IriExclusion::Iri(copy_string(s)),
            IriExclusion::IriStem(s) => IriExclusion::IriStem(copy_string(s)),
        };
        r.push(e);
        assert(v@.take(i + 1) == v@.take(i as int).push(v@[i as int]));
        i = i + 1;
    }
    assert(v@.take(i as int) == v@);
    r
}

fn copy_literal_exclusions(v: &Vec<LiteralExclusion>) -> (r: Vec<LiteralExclusion>)
    ensures
        r@ == v@,
{
    let mut r: Vec<LiteralExclusion> = Vec::new();
    let mut i: usize = 0;
    while i < v.len()
        invariant
            0 <= i <= v@.len(),
            r@ == v@.take(i as int),
        decreases v.len() - i,
    {
        let e = match &v[i] {
            LiteralExclusion::Literal(s) => LiteralExclusion::Literal(copy_string(s)),
            LiteralExclusion::LiteralStem(s) => LiteralExclusion::LiteralStem(copy_string(s)),
        };
        r.push(e);
        assert(v@.take(i + 1) == v@.take(i as int).push(v@[i as int]));
        i = i + 1;
    }
    assert(v@.take(i as int) == v@);
    r
}

fn copy_language_exclusions(v: &Vec<LanguageExclusion>) -> (r: Vec<LanguageExclusion>)
    ensures
        r@ == v@,
{
    let mut r: Vec<LanguageExclusion> = Vec::new();
    let mut i: usize = 0;
    while i < v.len()
        invariant
            0 <= i <= v@.len(),
            r@ == v@.take(i as int),
        decreases v.len() - i,
    {
        let e = match &v[i] {
            LanguageExclusion::Language(l) => LanguageExclusion::Language(l.copy()),
            LanguageExclusion::LanguageStem(l) => LanguageExclusion::LanguageStem(l.copy()),
        };
        r.push(e);
        assert(v@.take(i + 1) == v@.take(i as int).push(v@[i as int]));
        i = i + 1;
    }
    assert(v@.take(i as int) == v@);
    r
}

fn copy_string_opt(s: &Option<String>) -> (r: Option<String>)
    ensures
        r == *s,
{
    match s {
        Some(x) => Some(copy_string(x)),
        None => None,
    }
}

fn copy_lang_opt(s: &Option<Lang>) -> (r: Option<Lang>)
    ensures
        r == *s,
{
    match s {
        Some(x) => Some(x.copy()),
        None => None,
    }
}

impl ValueSetValue {
    /// A copy: the same value, which therefore accepts exactly the same nodes.
    pub fn copy(&self) -> (r: ValueSetValue)
        ensures
            same_value(r, *self),
            forall|n: Object| value_matches(r, n) == value_matches(*self, n),
    {
        let r = match self {
            ValueSetValue::IriStem { stem } => ValueSetValue::IriStem { stem: copy_string(stem) },
            ValueSetValue::IriStemRange { stem, exclusions } => {
                let stem = match stem {
                    IriRefOrWildcard::IriRef(s) => IriRefOrWildcard::IriRef(copy_string(s)),
                    IriRefOrWildcard::Wildcard { type_ } => IriRefOrWildcard::Wildcard { type_: copy_string(type_) },
                };
                let exclusions = match exclusions {
                    Some(v) => Some(copy_iri_exclusions(v)),
                    None => None,
                };
                ValueSetValue::IriStemRange { stem, exclusions }
            },
            ValueSetValue::LiteralStem { stem } => ValueSetValue::LiteralStem { stem: copy_string(stem) },
            ValueSetValue::LiteralStemRange { stem, exclusions } => {
                let stem = match stem {
                    StringOrWildcard::String(s) => StringOrWildcard::String(copy_string(s)),
                    StringOrWildcard::Wildcard { type_ } => StringOrWildcard::Wildcard { type_: copy_string(type_) },
                };
                let exclusions = match exclusions {
                    Some(v) => Some(copy_literal_exclusions(v)),
                    None => None,
                };
                ValueSetValue::LiteralStemRange { stem, exclusions }
            },
            ValueSetValue::Language { language_tag } => ValueSetValue::Language { language_tag: language_tag.copy() },
            ValueSetValue::LanguageStem { stem } => ValueSetValue::LanguageStem { stem: stem.copy() },
            ValueSetValue::LanguageStemRange { stem, exclusions } => {
                let stem = match stem {
                    LangOrWildcard::Lang(l) => LangOrWildcard::Lang(l.copy()),
                    LangOrWildcard::Wildcard { type_ } => LangOrWildcard::Wildcard { type_: copy_string(type_) },
                };
                let exclusions = match exclusions {
                    Some(v) => Some(copy_language_exclusions(v)),
                    None => None,
                };
                ValueSetValue::LanguageStemRange { stem, exclusions }
            },
            ValueSetValue::ObjectValue(ObjectValue::IriRef(s)) => ValueSetValue::ObjectValue(
                ObjectValue::IriRef(copy_string(s)),
            ),
            ValueSetValue::ObjectValue(ObjectValue::ObjectLiteral { value, language, type_ }) => {
                ValueSetValue::ObjectValue(
                    ObjectValue::ObjectLiteral {
                        value: copy_string(value),
                        language: copy_lang_opt(language),
                        type_: copy_string_opt(type_),
                    },
                )
            },
        };
        proof {
            lemma_same_value_matches(r, *self);
        }
        r
    }
}

impl ValueSet {
    /// A value set with a copy of each member of `values`, in order; it accepts exactly the
    /// nodes that some member accepts.
    pub fn from_values(values: &Vec<ValueSetValue>) -> (r: ValueSet)
        ensures
            r.values@.len() == values@.len(),
            forall|i: int| 0 <= i < values@.len() ==> same_value(#[trigger] r.values@[i], values@[i]),
            forall|n: Object| in_value_set(r.values@, n) == in_value_set(values@, n),
    {
        let mut r = ValueSet::new();
        let mut i: usize = 0;
        while i < values.len()
            invariant
                0 <= i <= values@.len(),
                r.values@.len() == i,
                forall|j: int| 0 <= j < i ==> same_value(#[trigger] r.values@[j], values@[j]),
                forall|j: int, n: Object|
                    0 <= j < i ==> #[trigger] value_matches(r.values@[j], n) == value_matches(values@[j], n),
            decreases values.len() - i,
        {
            r.add_value(values[i].copy());
            i = i + 1;
        }
        assert forall|n: Object| in_value_set(r.values@, n) == in_value_set(values@, n) by {
            if in_value_set(r.values@, n) {
                let j = choose|j: int| 0 <= j < r.values@.len() && value_matches(#[trigger] r.values@[j], n);
                assert(value_matches(values@[j], n));
            }
            if in_value_set(values@, n) {
                let j = choose|j: int| 0 <= j < values@.len() && value_matches(#[trigger] values@[j], n);
                assert(value_matches(r.values@[j], n));
            }
        }
        r
    }
}

} // verus!
