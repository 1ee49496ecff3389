use vstd::prelude::*;

verus! {

/// How the neighbourhood of a node is shown.
#[derive(Clone, Copy, PartialEq, Eq, Structural, PartialOrd, Ord, Hash, Debug)]
pub enum ShowNodeMode {
    Outgoing,
    Incoming,
    Both,
}

/// Formats in which a ShEx schema is read or written.
#[derive(Clone, Copy, PartialEq, Eq, Structural, PartialOrd, Ord, Hash, Debug)]
pub enum ShExFormat {
    Internal,
    Simple,
    ShExC,
    ShExJ,
    Turtle,
    NTriples,
    RDFXML,
    TriG,
    N3,
    NQuads,
}

/// Formats of a shape map.
#[derive(Clone, Copy, PartialEq, Eq, Structural, PartialOrd, Ord, Hash, Debug)]
pub enum ShapeMapFormat {
    Compact,
    Internal,
}

/// Formats of RDF data.
#[derive(Clone, Copy, PartialEq, Eq, Structural, PartialOrd, Ord, Hash, Debug)]
pub enum DataFormat {
    Turtle,
    NTriples,
    RDFXML,
    TriG,
    N3,
    NQuads,
}

/// Formats of a SHACL shapes graph.
#[derive(Clone, Copy, PartialEq, Eq, Structural, PartialOrd, Ord, Hash, Debug)]
pub enum ShaclFormat {
    Internal,
    Turtle,
    NTriples,
    RDFXML,
    TriG,
    N3,
    NQuads,
}

/// Formats of a DCTAP profile.
#[derive(Clone, Copy, PartialEq, Eq, Structural, PartialOrd, Ord, Hash, Debug)]
pub enum DCTapFormat {
    CSV,
}

/// Formats in which a DCTAP profile is written.
#[derive(Clone, Copy, PartialEq, Eq, Structural, PartialOrd, Ord, Hash, Debug)]
pub enum DCTapResultFormat {
    Internal,
    JSON,
}

/// The schema language that validation uses.
#[derive(Clone, Copy, PartialEq, Eq, Structural, PartialOrd, Ord, Hash, Debug)]
pub enum ValidationMode {
    ShEx,
    SHACL,
}

/// What a conversion reads.
#[derive(Clone, Copy, PartialEq, Eq, Structural, PartialOrd, Ord, Hash, Debug)]
pub enum InputConvertMode {
    SHACL,
    ShEx,
    DCTAP,
}

/// What a conversion writes.
#[derive(Clone, Copy, PartialEq, Eq, Structural, PartialOrd, Ord, Hash, Debug)]
pub enum OutputConvertMode {
    SPARQL,
    ShEx,
    UML,
    HTML,
}

/// How strictly RDF data is read.
#[derive(Clone, Copy, PartialEq, Eq, Structural, PartialOrd, Ord, Hash, Debug)]
pub enum RDFReaderMode {
    Lax,
    Strict,
}

impl ShowNodeMode {
    /// The name under which the value is written on the command line.
    pub fn to_string(&self) -> (r: String)
        ensures
            match *self {
                ShowNodeMode::Outgoing => r@ == "outgoing"@,
                ShowNodeMode::Incoming => r@ == "incoming"@,
                ShowNodeMode::Both => r@ == "both"@,
            },
    {
        match self {
            ShowNodeMode::Outgoing => String::from_str("outgoing"),
            ShowNodeMode::Incoming => String::from_str("incoming"),
            ShowNodeMode::Both => String::from_str("both"),
        }
    }
}

impl ShExFormat {
    /// The name under which the value is written on the command line.
    pub fn to_string(&self) -> (r: String)
        ensures
            match *self {
                ShExFormat::Internal => r@ == "internal"@,
                ShExFormat::Simple => r@ == "simple"@,
                ShExFormat::ShExC => r@ == "shexc"@,
                ShExFormat::ShExJ => r@ == "shexj"@,
                ShExFormat::Turtle => r@ == "turtle"@,
                ShExFormat::NTriples => r@ == "ntriples"@,
                ShExFormat::RDFXML => r@ == "rdfxml"@,
                ShExFormat::TriG => r@ == "trig"@,
                ShExFormat::N3 => r@ == "n3"@,
                ShExFormat::NQuads => r@ == "nquads"@,
            },
    {
        match self {
            ShExFormat::Internal => String::from_str("internal"),
            ShExFormat::Simple => String::from_str("simple"),
            ShExFormat::ShExC => String::from_str("shexc"),
            ShExFormat::ShExJ => String::from_str("shexj"),
            ShExFormat::Turtle => String::from_str("turtle"),
            ShExFormat::NTriples => String::from_str("ntriples"),
            ShExFormat::RDFXML => String::from_str("rdfxml"),
            ShExFormat::TriG => String::from_str("trig"),
            ShExFormat::N3 => String::from_str("n3"),
            ShExFormat::NQuads => String::from_str("nquads"),
        }
    }
}

impl ShapeMapFormat {
    /// The name under which the value is written on the command line.
    pub fn to_string(&self) -> (r: String)
        ensures
            match *self {
                ShapeMapFormat::Compact => r@ == "compact"@,
                ShapeMapFormat::Internal => r@ == "internal"@,
            },
    {
        match self {
            ShapeMapFormat::Compact => String::from_str("compact"),
            ShapeMapFormat::Internal => String::from_str("internal"),
        }
    }
}

impl DataFormat {
    /// The name under which the value is written on the command line.
    pub fn to_string(&self) -> (r: String)
        ensures
            match *self {
                DataFormat::Turtle => r@ == "turtle"@,
                DataFormat::NTriples => r@ == "ntriples"@,
                DataFormat::RDFXML => r@ == "rdfxml"@,
                DataFormat::TriG => r@ == "trig"@,
                DataFormat::N3 => r@ == "n3"@,
                DataFormat::NQuads => r@ == "nquads"@,
            },
    {
        match self {
            DataFormat::Turtle => String::from_str("turtle"),
            DataFormat::NTriples => String::from_str("ntriples"),
            DataFormat::RDFXML => String::from_str("rdfxml"),
            DataFormat::TriG => String::from_str("trig"),
            DataFormat::N3 => String::from_str("n3"),
            DataFormat::NQuads => String::from_str("nquads"),
        }
    }
}

impl ShaclFormat {
    /// The name under which the value is written on the command line.
    pub fn to_string(&self) -> (r: String)
        ensures
            match *self {
                ShaclFormat::Internal => r@ == "internal"@,
                ShaclFormat::Turtle => r@ == "turtle"@,
                ShaclFormat::NTriples => r@ == "NTriples"@,
                ShaclFormat::RDFXML => r@ == "rdfxml"@,
                ShaclFormat::TriG => r@ == "trig"@,
                ShaclFormat::N3 => r@ == "n3"@,
                ShaclFormat::NQuads => r@ == "nquads"@,
            },
    {
        match self {
            ShaclFormat::Internal => String::from_str("internal"),
            ShaclFormat::Turtle => String::from_str("turtle"),
            ShaclFormat::NTriples => String::from_str("NTriples"),
            ShaclFormat::RDFXML => String::from_str("rdfxml"),
            ShaclFormat::TriG => String::from_str("trig"),
            ShaclFormat::N3 => String::from_str("n3"),
            ShaclFormat::NQuads => String::from_str("nquads"),
        }
    }
}

impl DCTapFormat {
    /// The name under which the value is written on the command line.
    pub fn to_string(&self) -> (r: String)
        ensures
            match *self {
                DCTapFormat::CSV => r@ == "csv"@,
            },
    {
        match self {
            DCTapFormat::CSV => String::from_str("csv"),
        }
    }
}

impl DCTapResultFormat {
    /// The name under which the value is written on the command line.
    pub fn to_string(&self) -> (r: String)
        ensures
            match *self {
                DCTapResultFormat::Internal => r@ == "internal"@,
                DCTapResultFormat::JSON => r@ == "json"@,
            },
    {
        match self {
            DCTapResultFormat::Internal => String::from_str("internal"),
            DCTapResultFormat::JSON => String::from_str("json"),
        }
    }
}

impl ValidationMode {
    /// The name under which the value is written on the command line.
    pub fn to_string(&self) -> (r: String)
        ensures
            match *self {
                ValidationMode::ShEx => r@ == "shex"@,
                ValidationMode::SHACL => r@ == "shacl"@,
            },
    {
        match self {
            ValidationMode::ShEx => String::from_str("shex"),
            ValidationMode::SHACL => String::from_str("shacl"),
        }
    }
}

impl InputConvertMode {
    /// The name under which the value is written on the command line.
    pub fn to_string(&self) -> (r: String)
        ensures
            match *self {
                InputConvertMode::SHACL => r@ == "shacl"@,
                InputConvertMode::ShEx => r@ == "shex"@,
                InputConvertMode::DCTAP => r@ == "dctap"@,
            },
    {
        match self {
            InputConvertMode::SHACL => String::from_str("shacl"),
            InputConvertMode::ShEx => String::from_str("shex"),
            InputConvertMode::DCTAP => String::from_str("dctap"),
        }
    }
}

impl OutputConvertMode {
    /// The name under which the value is written on the command line.
    pub fn to_string(&self) -> (r: String)
        ensures
            match *self {
                OutputConvertMode::SPARQL => r@ == "sparql"@,
                OutputConvertMode::ShEx => r@ == "shex"@,
                OutputConvertMode::UML => r@ == "uml"@,
                OutputConvertMode::HTML => r@ == "html"@,
            },
    {
        match self {
            OutputConvertMode::SPARQL => String::from_str("sparql"),
            OutputConvertMode::ShEx => String::from_str("shex"),
            OutputConvertMode::UML => String::from_str("uml"),
            OutputConvertMode::HTML => String::from_str("html"),
        }
    }
}

impl RDFReaderMode {
    /// The name under which the value is written on the command line.
    pub fn to_string(&self) -> (r: String)
        ensures
            match *self {
                RDFReaderMode::Lax => r@ == "lax"@,
                RDFReaderMode::Strict => r@ == "strict"@,
            },
    {
        match self {
            RDFReaderMode::Lax => String::from_str("lax"),
            RDFReaderMode::Strict => String::from_str("strict"),
        }
    }
}

impl RDFReaderMode {
    pub fn default() -> (r: RDFReaderMode)
        ensures
            r == RDFReaderMode::Strict,
    {
        RDFReaderMode::Strict
    }
}

/// Formats of an RDF document.
#[derive(Clone, Copy, PartialEq, Eq, Structural, Hash, Debug)]
pub enum RDFFormat {
    Turtle,
    NTriples,
    RDFXML,
    TriG,
    N3,
    NQuads,
}

/// How an RDF reader treats malformed data: reject it, or skip it.
#[derive(Clone, Copy, PartialEq, Eq, Structural, Hash, Debug)]
pub enum ReaderMode {
    Strict,
    Lax,
}

pub open spec fn rdf_format_of(val: DataFormat) -> RDFFormat {
    match val {
        DataFormat::Turtle => RDFFormat::Turtle,
        DataFormat::NTriples => RDFFormat::NTriples,
        DataFormat::RDFXML => RDFFormat::RDFXML,
        DataFormat::TriG => RDFFormat::TriG,
        DataFormat::N3 => RDFFormat::N3,
        DataFormat::NQuads => RDFFormat::NQuads,
    }
}

pub open spec fn reader_mode_of(val: RDFReaderMode) -> ReaderMode {
    match val {
        RDFReaderMode::Strict => ReaderMode::Strict,
        RDFReaderMode::Lax => ReaderMode::Lax,
    }
}

impl From<DataFormat> for RDFFormat {
    fn from(val: DataFormat) -> (r: RDFFormat)
        ensures
            r == rdf_format_of(val),
    {
        match val {
            DataFormat::Turtle => RDFFormat::Turtle,
            DataFormat::NTriples => RDFFormat::NTriples,
            DataFormat::RDFXML => RDFFormat::RDFXML,
            DataFormat::TriG => RDFFormat::TriG,
            DataFormat::N3 => RDFFormat::N3,
            DataFormat::NQuads => RDFFormat::NQuads,
        }
    }
}

impl vstd::std_specs::convert::FromSpecImpl<DataFormat> for RDFFormat {
    open spec fn obeys_from_spec() -> bool {
        true
    }

    open spec fn from_spec(v: DataFormat) -> RDFFormat {
        rdf_format_of(v)
    }
}

impl From<RDFReaderMode> for ReaderMode {
    fn from(val: RDFReaderMode) -> (r: ReaderMode)
        ensures
            r == reader_mode_of(val),
    {
        match val {
            RDFReaderMode::Strict => ReaderMode::Strict,
            RDFReaderMode::Lax => ReaderMode::Lax,
        }
    }
}

impl vstd::std_specs::convert::FromSpecImpl<RDFReaderMode> for ReaderMode {
    open spec fn obeys_from_spec() -> bool {
        true
    }

    open spec fn from_spec(v: RDFReaderMode) -> ReaderMode {
        reader_mode_of(v)
    }
}

} // verus!
