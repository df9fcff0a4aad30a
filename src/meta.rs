use vstd::prelude::*;

use crate::standard::{standard_named, BoardStandards};

verus! {

#[verifier::external_type_specification]
#[verifier::external_body]
pub struct ExTomlValue(toml::Value);

#[verifier::external_type_specification]
#[verifier::external_body]
#[verifier::reject_recursive_types(K)]
#[verifier::reject_recursive_types(V)]
pub struct ExTomlMap<K, V>(toml::map::Map<K, V>);

#[verifier::external_type_specification]
#[verifier::external_body]
pub struct ExTomlError(toml::de::Error);

/// The top-level table of the TOML document `text`; `None` when the text is not valid TOML.
pub uninterp spec fn toml_table_of(text: Seq<char>) -> Option<toml::Table>;

/// The value stored under `key` in a TOML table.
pub uninterp spec fn toml_entry(t: toml::Table, key: Seq<char>) -> Option<toml::Value>;

/// The text of a TOML value, when it is a string.
pub uninterp spec fn toml_text(v: toml::Value) -> Option<Seq<char>>;

/// The number held by a TOML value, when it is an integer.
pub uninterp spec fn toml_integer(v: toml::Value) -> Option<i64>;

/// The elements of a TOML value, when it is an array.
pub uninterp spec fn toml_array(v: toml::Value) -> Option<Seq<toml::Value>>;

/// Relies on toml::from_str into a toml::Table: the document's top-level table, or an
/// error when the text is not a valid TOML document.
#[verifier::external_body]
fn parse_table(text: &str) -> (r: Result<toml::Table, toml::de::Error>)
    ensures
        match r {
            Ok(t) => toml_table_of(text@) == Some(t),
            Err(_) => toml_table_of(text@) is None,
        },
{
    toml::from_str(text)
}

/// Relies on toml::map::Map::get: the value stored under `key`, if any.
#[verifier::external_body]
fn table_get(t: &toml::Table, key: &str) -> (r: Option<toml::Value>)
    ensures
        r == toml_entry(*t, key@),
{
    t.get(key).cloned()
}

/// Relies on toml::Value::as_str: the text of a string value, `None` for any other kind.
#[verifier::external_body]
fn value_text(v: &toml::Value) -> (r: Option<String>)
    ensures
        match r {
            Some(s) => toml_text(*v) == Some(s@),
            None => toml_text(*v) is None,
        },
{
    match v.as_str() {
        Some(s) => Some(s.to_string()),
        None => None,
    }
}

/// Relies on toml::Value::as_integer: the number of an integer value, `None` for any other kind.
#[verifier::external_body]
fn value_integer(v: &toml::Value) -> (r: Option<i64>)
    ensures
        r == toml_integer(*v),
{
    v.as_integer()
}

/// Relies on toml::Value::as_array: the elements of an array value, `None` for any other kind.
#[verifier::external_body]
fn value_array(v: &toml::Value) -> (r: Option<Vec<toml::Value>>)
    ensures
        match r {
            Some(a) => toml_array(*v) == Some(a@),
            None => toml_array(*v) is None,
        },
{
    v.as_array().cloned()
}

/// A field of a board's metadata file.
#[derive(Debug, Clone, Copy, PartialEq, Eq, Structural)]
pub enum Field {
    Name,
    Manufacturer,
    Standard,
    Cpu,
    Ram,
    Flash,
    RelatedCrates,
}

/// The key under which a field is written.
pub open spec fn field_key(f: Field) -> Seq<char> {
    match f {
        Field::Name => "name"@,
        Field::Manufacturer => "manufacturer"@,
        Field::Standard => "standard"@,
        Field::Cpu => "cpu"@,
        Field::Ram => "ram"@,
        Field::Flash => "flash"@,
        Field::RelatedCrates => "related_crates"@,
    }
}

/// Why a metadata file yields no board.
#[derive(Debug, Clone, Copy, PartialEq, Eq, Structural)]
pub enum LoadError {
    /// The file could not be read as text.
    Unreadable,
    /// The text is not a valid TOML document.
    Syntax,
    /// A required field is absent.
    Missing(Field),
    /// A field holds a value of the wrong kind, or an unknown standard.
    Invalid(Field),
}

/// The declared part of a board: what its metadata file states.
#[derive(Debug, Clone)]
pub struct BoardMeta {
    pub name: String,
    pub manufacturer: String,
    pub standard: Option<BoardStandards>,
    pub cpu: Option<String>,
    /// RAM in kilobytes.
    pub ram: Option<i64>,
    /// Flash in kilobytes.
    pub flash: Option<i64>,
    pub related_crates: Option<Vec<String>>,
}

/// The mathematical value of a `BoardMeta`.
pub struct MetaView {
    pub name: Seq<char>,
    pub manufacturer: Seq<char>,
    pub standard: Option<BoardStandards>,
    pub cpu: Option<Seq<char>>,
    pub ram: Option<i64>,
    pub flash: Option<i64>,
    pub related_crates: Option<Seq<Seq<char>>>,
}

pub open spec fn texts_view(v: Seq<String>) -> Seq<Seq<char>> {
    v.map_values(|s: String| s@)
}

pub open spec fn opt_text_view(o: Option<String>) -> Option<Seq<char>> {
    match o {
        Some(s) => Some(s@),
        None => None,
    }
}

impl View for BoardMeta {
    type V = MetaView;

    open spec fn view(&self) -> MetaView {
        MetaView {
            name: self.name@,
            manufacturer: self.manufacturer@,
            standard: self.standard,
            cpu: opt_text_view(self.cpu),
            ram: self.ram,
            flash: self.flash,
            related_crates: match self.related_crates {
                Some(v) => Some(texts_view(v@)),
                None => None,
            },
        }
    }
}

/// The texts of a sequence of TOML values, when every one of them is a string.
pub open spec fn text_list_of(vs: Seq<toml::Value>) -> Option<Seq<Seq<char>>>
    decreases vs.len(),
{
    if vs.len() == 0 {
        Some(Seq::empty())
    } else {
        match (text_list_of(vs.drop_last()), toml_text(vs.last())) {
            (Some(l), Some(s)) => Some(l.push(s)),
            _ => None,
        }
    }
}

pub open spec fn required_text(t: toml::Table, f: Field) -> Result<Seq<char>, LoadError> {
    match toml_entry(t, field_key(f)) {
        None => Err(LoadError::Missing(f)),
        Some(v) => match toml_text(v) {
            Some(s) => Ok(s),
            None => Err(LoadError::Invalid(f)),
        },
    }
}

pub open spec fn optional_text(t: toml::Table, f: Field) -> Result<Option<Seq<char>>, LoadError> {
    match toml_entry(t, field_key(f)) {
        None => Ok(None),
        Some(v) => match toml_text(v) {
            Some(s) => Ok(Some(s)),
            None => Err(LoadError::Invalid(f)),
        },
    }
}

pub open spec fn optional_integer(t: toml::Table, f: Field) -> Result<Option<i64>, LoadError> {
    match toml_entry(t, field_key(f)) {
        None => Ok(None),
        Some(v) => match toml_integer(v) {
            Some(n) => Ok(Some(n)),
            None => Err(LoadError::Invalid(f)),
        },
    }
}

pub open spec fn optional_standard(t: toml::Table) -> Result<Option<BoardStandards>, LoadError> {
    match optional_text(t, Field::Standard) {
        Err(e) => Err(e),
        Ok(None) => Ok(None),
        Ok(Some(s)) => match standard_named(s) {
            Some(st) => Ok(Some(st)),
            None => Err(LoadError::Invalid(Field::Standard)),
        },
    }
}

pub open spec fn optional_text_list(t: toml::Table) -> Result<Option<Seq<Seq<char>>>, LoadError> {
    match toml_entry(t, field_key(Field::RelatedCrates)) {
        None => Ok(None),
        Some(v) => match toml_array(v) {
            Some(a) => match text_list_of(a) {
                Some(l) => Ok(Some(l)),
                None => Err(LoadError::Invalid(Field::RelatedCrates)),
            },
            None => Err(LoadError::Invalid(Field::RelatedCrates)),
        },
    }
}

/// The metadata a TOML table declares: fields are checked in declaration order and the
/// first absent required field or ill-typed field is the error. Other keys are ignored.
pub open spec fn meta_of_table(t: toml::Table) -> Result<MetaView, LoadError> {
    match (
        required_text(t, Field::Name),
        required_text(t, Field::Manufacturer),
        optional_standard(t),
        optional_text(t, Field::Cpu),
        optional_integer(t, Field::Ram),
        optional_integer(t, Field::Flash),
        optional_text_list(t),
    ) {
        (Err(e), _, _, _, _, _, _) => Err(e),
        (Ok(_), Err(e), _, _, _, _, _) => Err(e),
        (Ok(_), Ok(_), Err(e), _, _, _, _) => Err(e),
        (Ok(_), Ok(_), Ok(_), Err(e), _, _, _) => Err(e),
        (Ok(_), Ok(_), Ok(_), Ok(_), Err(e), _, _) => Err(e),
        (Ok(_), Ok(_), Ok(_), Ok(_), Ok(_), Err(e), _) => Err(e),
        (Ok(_), Ok(_), Ok(_), Ok(_), Ok(_), Ok(_), Err(e)) => Err(e),
        (Ok(n), Ok(m), Ok(s), Ok(c), Ok(r), Ok(f), Ok(l)) => Ok(
            MetaView {
                name: n,
                manufacturer: m,
                standard: s,
                cpu: c,
                ram: r,
                flash: f,
                related_crates: l,
            },
        ),
    }
}

/// The metadata declared by the TOML document `text`.
pub open spec fn meta_of_text(text: Seq<char>) -> Result<MetaView, LoadError> {
    match toml_table_of(text) {
        None => Err(LoadError::Syntax),
        Some(t) => meta_of_table(t),
    }
}

pub open spec fn meta_result_view(r: Result<BoardMeta, LoadError>) -> Result<MetaView, LoadError> {
    match r {
        Ok(m) => Ok(m@),
        Err(e) => Err(e),
    }
}

impl Field {
    /// The key under which the field is written.
    pub fn key(&self) -> (r: &'static str)
        ensures
            r@ == field_key(*self),
    {
        match self {
            Field::Name => {
                proof { reveal_strlit("name"); }
                "name"
            },
            Field::Manufacturer => {
                proof { reveal_strlit("manufacturer"); }
                "manufacturer"
            },
            Field::Standard => {
                proof { reveal_strlit("standard"); }
                "standard"
            },
            Field::Cpu => {
                proof { reveal_strlit("cpu"); }
                "cpu"
            },
            Field::Ram => {
                proof { reveal_strlit("ram"); }
                "ram"
            },
            Field::Flash => {
                proof { reveal_strlit("flash"); }
                "flash"
            },
            Field::RelatedCrates => {
                proof { reveal_strlit("related_crates"); }
                "related_crates"
            },
        }
    }
}

fn read_required_text(t: &toml::Table, f: Field) -> (r: Result<String, LoadError>)
    ensures
        match r {
            Ok(s) => required_text(*t, f) == Ok::<Seq<char>, LoadError>(s@),
            Err(e) => required_text(*t, f) == Err::<Seq<char>, LoadError>(e),
        },
{
    match table_get(t, f.key()) {
        None => Err(LoadError::Missing(f)),
        Some(v) => match value_text(&v) {
            Some(s) => Ok(s),
            None => Err(LoadError::Invalid(f)),
        },
    }
}

fn read_optional_text(t: &toml::Table, f: Field) -> (r: Result<Option<String>, LoadError>)
    ensures
        match r {
            Ok(o) => optional_text(*t, f) == Ok::<Option<Seq<char>>, LoadError>(opt_text_view(o)),
            Err(e) => optional_text(*t, f) == Err::<Option<Seq<char>>, LoadError>(e),
        },
{
    match table_get(t, f.key()) {
        None => Ok(None),
        Some(v) => match value_text(&v) {
            Some(s) => Ok(Some(s)),
            None => Err(LoadError::Invalid(f)),
        },
    }
}

fn read_optional_integer(t: &toml::Table, f: Field) -> (r: Result<Option<i64>, LoadError>)
    ensures
        r == optional_integer(*t, f),
{
    match table_get(t, f.key()) {
        None => Ok(None),
        Some(v) => match value_integer(&v) {
            Some(n) => Ok(Some(n)),
            None => Err(LoadError::Invalid(f)),
        },
    }
}

fn read_optional_standard(t: &toml::Table) -> (r: Result<Option<BoardStandards>, LoadError>)
    ensures
        r == optional_standard(*t),
{
    match read_optional_text(t, Field::Standard) {
        Err(e) => Err(e),
        Ok(None) => Ok(None),
        Ok(Some(s)) => match BoardStandards::from_name(s.as_str()) {
            Some(st) => Ok(Some(st)),
            None => Err(LoadError::Invalid(Field::Standard)),
        },
    }
}

/// The texts of `vs`, when every one of them is a TOML string.
fn texts_of(vs: &Vec<toml::Value>) -> (r: Option<Vec<String>>)
    ensures
        match r {
            Some(l) => text_list_of(vs@) == Some(texts_view(l@)),
            None => text_list_of(vs@) is None,
        },
{
    let mut out: Vec<String> = Vec::new();
    let mut i: usize = 0;
    while i < vs.len()
        invariant
            i <= vs@.len(),
            text_list_of(vs@.subrange(0, i as int)) == Some(texts_view(out@)),
        decreases vs.len() - i,
    {
        let ghost before = out@;
        assert(vs@.subrange(0, i + 1).drop_last() == vs@.subrange(0, i as int));
        match value_text(&vs[i]) {
            Some(s) => {
                out.push(s);
                assert(texts_view(out@) == texts_view(before).push(out@.last()@));
            },
            None => {
                proof {
                    lemma_text_list_prefix_fails(vs@, i as int + 1);
                }
                return None;
            },
        }
        i = i + 1;
    }
    assert(vs@.subrange(0, vs@.len() as int) == vs@);
    Some(out)
}

/// A prefix of TOML values that is not all strings stays so when extended.
proof fn lemma_text_list_prefix_fails(vs: Seq<toml::Value>, n: int)
    requires
        0 <= n <= vs.len(),
        text_list_of(vs.subrange(0, n)) is None,
    ensures
        text_list_of(vs) is None,
    decreases vs.len() - n,
{
    if n < vs.len() {
        assert(vs.subrange(0, n + 1).drop_last() == vs.subrange(0, n));
        lemma_text_list_prefix_fails(vs, n + 1);
    } else {
        assert(vs.subrange(0, n) == vs);
    }
}

fn read_optional_text_list(t: &toml::Table) -> (r: Result<Option<Vec<String>>, LoadError>)
    ensures
        match r {
            Ok(Some(l)) => optional_text_list(*t) == Ok::<Option<Seq<Seq<char>>>, LoadError>(Some(texts_view(l@))),
            Ok(None) => optional_text_list(*t) == Ok::<Option<Seq<Seq<char>>>, LoadError>(None),
            Err(e) => optional_text_list(*t) == Err::<Option<Seq<Seq<char>>>, LoadError>(e),
        },
{
    match table_get(t, Field::RelatedCrates.key()) {
        None => Ok(None),
        Some(v) => match value_array(&v) {
            Some(a) => match texts_of(&a) {
                Some(l) => Ok(Some(l)),
                None => Err(LoadError::Invalid(Field::RelatedCrates)),
            },
            None => Err(LoadError::Invalid(Field::RelatedCrates)),
        },
    }
}

impl BoardMeta {
    /// The metadata declared by a parsed TOML table.
    pub fn from_table(t: &toml::Table) -> (r: Result<BoardMeta, LoadError>)
        ensures
            meta_result_view(r) == meta_of_table(*t),
    {
        let name = match read_required_text(t, Field::Name) {
            Ok(s) => s,
            Err(e) => return Err(e),
        };
        let manufacturer = match read_required_text(t, Field::Manufacturer) {
            Ok(s) => s,
            Err(e) => return Err(e),
        };
        let standard = match read_optional_standard(t) {
            Ok(s) => s,
            Err(e) => return Err(e),
        };
        let cpu = match read_optional_text(t, Field::Cpu) {
            Ok(s) => s,
            Err(e) => return Err(e),
        };
        let ram = match read_optional_integer(t, Field::Ram) {
            Ok(s) => s,
            Err(e) => return Err(e),
        };
        let flash = match read_optional_integer(t, Field::Flash) {
            Ok(s) => s,
            Err(e) => return Err(e),
        };
        let related_crates = match read_optional_text_list(t) {
            Ok(s) => s,
            Err(e) => return Err(e),
        };
        Ok(BoardMeta { name, manufacturer, standard, cpu, ram, flash, related_crates })
    }

    /// The metadata declared by the TOML document `text`.
    pub fn from_text(text: &str) -> (r: Result<BoardMeta, LoadError>)
        ensures
            meta_result_view(r) == meta_of_text(text@),
    {
        match parse_table(text) {
            Ok(t) => BoardMeta::from_table(&t),
            Err(_) => Err(LoadError::Syntax),
        }
    }
}

} // verus!
