use shex_ast::formats::{
    DCTapFormat, DCTapResultFormat, DataFormat, InputConvertMode, OutputConvertMode, RDFFormat, RDFReaderMode, ReaderMode,
    ShExFormat, ShaclFormat, ShapeMapFormat, ShowNodeMode, ValidationMode,
};

#[test]
fn names_of_formats() {
    assert_eq!(ShowNodeMode::Both.to_string(), "both");
    assert_eq!(ShExFormat::ShExC.to_string(), "shexc");
    assert_eq!(ShExFormat::RDFXML.to_string(), "rdfxml");
    assert_eq!(ShapeMapFormat::Compact.to_string(), "compact");
    assert_eq!(DataFormat::NQuads.to_string(), "nquads");
    assert_eq!(ShaclFormat::NTriples.to_string(), "NTriples");
    assert_eq!(DCTapFormat::CSV.to_string(), "csv");
    assert_eq!(DCTapResultFormat::JSON.to_string(), "json");
    assert_eq!(ValidationMode::SHACL.to_string(), "shacl");
    assert_eq!(InputConvertMode::DCTAP.to_string(), "dctap");
    assert_eq!(OutputConvertMode::UML.to_string(), "uml");
    assert_eq!(RDFReaderMode::Lax.to_string(), "lax");
}

#[test]
fn conversions_of_formats() {
    assert_eq!(RDFFormat::from(DataFormat::Turtle), RDFFormat::Turtle);
    assert_eq!(RDFFormat::from(DataFormat::TriG), RDFFormat::TriG);
    assert_eq!(ReaderMode::from(RDFReaderMode::default()), ReaderMode::Strict);
    assert_eq!(ReaderMode::from(RDFReaderMode::Lax), ReaderMode::Lax);
}
