//! Frontmatter extraction. A document must begin with a `---` delimiter
//! line, hold key-value header content, and close with another delimiter
//! line; the body after the closing line is ignored and may be absent. The
//! parse itself is the outside parser's work and is modelled by the name
//! [`frontmatter_of`]; everything downstream of the parse is verified
//! against that name.

use vstd::prelude::*;
use gray_matter::Matter;
use gray_matter::Pod;
use gray_matter::engine::YAML;
use self::ParseOutcome::Mapping;
use self::ParseOutcome::NoFrontmatter;
use self::ParseOutcome::NotMapping;
use self::ParseOutcome::ParseError;
use self::RawValue::Other;
use self::RawValue::Table;
use self::RawValue::Text;
use crate::errors::SkillError;
use crate::models::pairs_to_map;

verus! {

/// A header value as the pipeline sees it: a text scalar, a string-to-string
/// table, or anything else (numbers, booleans, arrays, nested shapes), which
/// the typed model cannot hold.
pub enum SpecValue {
    Text(Seq<char>),
    Table(Map<Seq<char>, Seq<char>>),
    Other,
}

/// What parsing a document yields: a parse failure, no delimited
/// frontmatter, frontmatter that is not a key-value block, or the block's
/// fields.
pub enum FrontmatterSpec {
    ParseError,
    Missing,
    NotMapping,
    Fields(Map<Seq<char>, SpecValue>),
}

/// The parse of a document with `---` delimiters: a function of the
/// document's characters alone.
pub uninterp spec fn frontmatter_of(doc: Seq<char>) -> FrontmatterSpec;

/// A header value carried as plain data.
#[derive(Debug)]
pub enum RawValue {
    Text(String),
    Table(Vec<(String, String)>),
    Other,
}

/// One header field: the key literally present in the block, and its value.
#[derive(Debug)]
pub struct RawEntry {
    pub key: String,
    pub value: RawValue,
}

/// The outcome of one parse call, as plain data.
pub enum ParseOutcome {
    ParseError(String),
    NoFrontmatter,
    NotMapping,
    Mapping(Vec<RawEntry>),
}

pub open spec fn value_view(v: RawValue) -> SpecValue {
    match v {
        RawValue::Text(s) => SpecValue::Text(s@),
        RawValue::Table(pairs) => SpecValue::Table(pairs_to_map(pairs.deep_view())),
        RawValue::Other => SpecValue::Other,
    }
}

pub open spec fn entries_to_map(entries: Seq<RawEntry>) -> Map<Seq<char>, SpecValue>
    decreases entries.len(),
{
    if entries.len() == 0 {
        Map::<Seq<char>, SpecValue>::empty()
    } else {
        entries_to_map(entries.drop_last()).insert(
            entries.last().key@,
            value_view(entries.last().value),
        )
    }
}

/// The keys literally present in the header block, in the order carried.
pub open spec fn keys_of(entries: Seq<RawEntry>) -> Seq<Seq<char>> {
    entries.map_values(|e: RawEntry| e.key@)
}

/// Keys are pairwise distinct, and so are the keys of any table value.
pub open spec fn entries_wf(entries: Seq<RawEntry>) -> bool {
    &&& forall|i: int, j: int|
        0 <= i < j < entries.len() ==> entries[i].key@ != entries[j].key@
    &&& forall|i: int|
        0 <= i < entries.len() ==> match #[trigger] entries[i].value {
            RawValue::Table(pairs) => forall|p: int, q: int|
                0 <= p < q < pairs@.len() ==> #[trigger] pairs@[p].0@ != #[trigger] pairs@[q].0@,
            _ => true,
        }
}

pub open spec fn outcome_view(r: ParseOutcome) -> FrontmatterSpec {
    match r {
        ParseOutcome::ParseError(_) => FrontmatterSpec::ParseError,
        ParseOutcome::NoFrontmatter => FrontmatterSpec::Missing,
        ParseOutcome::NotMapping => FrontmatterSpec::NotMapping,
        ParseOutcome::Mapping(entries) => FrontmatterSpec::Fields(entries_to_map(entries@)),
    }
}

pub open spec fn outcome_wf(r: ParseOutcome) -> bool {
    match r {
        ParseOutcome::Mapping(entries) => entries_wf(entries@),
        _ => true,
    }
}

/// Relies on gray_matter's `Matter::<YAML>::parse` with its default `---`
/// delimiters: `data` is `None` when the document does not begin with a
/// delimiter line, has no closing delimiter line, or the region between the
/// delimiters is empty; otherwise `data` holds the parsed header, a
/// `Pod::Hash` for a key-value block. The hash's iteration order is
/// arbitrary, so only the key-to-value mapping is stated, together with key
/// distinctness, which the hash guarantees.
#[verifier::external_body]
fn parse_document(content: &str) -> (r: ParseOutcome)
    ensures
        outcome_view(r) == frontmatter_of(content@),
        outcome_wf(r),
{
    let parsed = match Matter::<YAML>::new().parse::<Pod>(content) { Err(e) => return ParseError(format!("{}", e)), Ok(p) => p };
    match parsed.data {
        None => NoFrontmatter,
        Some(Pod::Hash(fields)) => Mapping(fields.into_iter().map(|(key, value)| RawEntry {
            key,
            value: match value {
                Pod::String(text) => Text(text),
                Pod::Hash(t) => t.into_iter().map(|(k, v)| match v { Pod::String(s) => Some((k, s)), _ => None }).collect::<Option<Vec<_>>>().map_or(Other, Table),
                _ => Other,
            },
        }).collect()),
        Some(_) => NotMapping,
    }
}

/// Splits a document into its frontmatter fields. Fails with
/// `MissingFrontmatter` when either delimiter is absent or the region
/// between the delimiters is empty, and with `Yaml` when the region cannot
/// be parsed or does not parse to a key-value block.
pub fn parse_frontmatter(content: &str) -> (r: Result<Vec<RawEntry>, SkillError>)
    ensures
        r matches Ok(entries) ==> frontmatter_of(content@) == FrontmatterSpec::Fields(
            entries_to_map(entries@),
        ) && entries_wf(entries@),
        r is Ok <==> frontmatter_of(content@) is Fields,
        frontmatter_of(content@) is Missing <==> (r matches Err(e) && e is MissingFrontmatter),
        frontmatter_of(content@) is ParseError || frontmatter_of(content@) is NotMapping <==> (
        r matches Err(e) && e is Yaml),
{
    match parse_document(content) {
        ParseOutcome::ParseError(message) => Err(SkillError::Yaml(message)),
        ParseOutcome::NoFrontmatter => Err(SkillError::MissingFrontmatter),
        ParseOutcome::NotMapping => Err(
            SkillError::Yaml(String::from_str("Type error, expected: Hash")),
        ),
        ParseOutcome::Mapping(entries) => Ok(entries),
    }
}

} // verus!
