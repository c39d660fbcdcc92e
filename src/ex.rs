//! Excel tables: the `.exh` schema, the `.exd` pages it points to, and the decoding of
//! rows and cells.
use vstd::prelude::*;
use crate::bytes::{be_u16, be_u32, fits, le_u16, read_u16_be, read_u16_le, read_u32_be};
use crate::error::XivError;
use crate::text::{decimal, push_decimal};

verus! {

/// A language of the game's text.
#[derive(Debug, Clone, Copy, PartialEq, Eq, Structural)]
pub enum Locale {
    Neutral,
    Japanese,
    English,
    German,
    French,
    ChineseSimplified,
    ChineseTraditional,
    Korean,
}

/// The suffix that a page file of a table in locale `l` carries.
pub open spec fn locale_suffix(l: Locale) -> Seq<char> {
    match l {
        Locale::Neutral => ""@,
        Locale::Japanese => "_ja"@,
        Locale::English => "_en"@,
        Locale::German => "_de"@,
        Locale::French => "_fr"@,
        Locale::ChineseSimplified => "_chs"@,
        Locale::ChineseTraditional => "_cht"@,
        Locale::Korean => "_ko"@,
    }
}

/// The locale with code `v`, as stored in a schema.
pub open spec fn locale_of(v: u16) -> Option<Locale> {
    if v == 0 { Some(Locale::Neutral) }
    else if v == 1 { Some(Locale::Japanese) }
    else if v == 2 { Some(Locale::English) }
    else if v == 3 { Some(Locale::German) }
    else if v == 4 { Some(Locale::French) }
    else if v == 5 { Some(Locale::ChineseSimplified) }
    else if v == 6 { Some(Locale::ChineseTraditional) }
    else if v == 7 { Some(Locale::Korean) }
    else { None }
}

impl Locale {
    /// The file name suffix of the locale (`""`, `_ja`, `_en`, ...).
    pub fn suffix(&self) -> (r: &'static str)
        ensures
            r@ == locale_suffix(*self),
    {
        match self {
            Locale::Neutral => "",
            Locale::Japanese => "_ja",
            Locale::English => "_en",
            Locale::German => "_de",
            Locale::French => "_fr",
            Locale::ChineseSimplified => "_chs",
            Locale::ChineseTraditional => "_cht",
            Locale::Korean => "_ko",
        }
    }

    /// The locale with code `v`.
    pub fn from_code(v: u16) -> (r: Option<Locale>)
        ensures
            r == locale_of(v),
    {
        match v {
            0 => Some(Locale::Neutral),
            1 => Some(Locale::Japanese),
            2 => Some(Locale::English),
            3 => Some(Locale::German),
            4 => Some(Locale::French),
            5 => Some(Locale::ChineseSimplified),
            6 => Some(Locale::ChineseTraditional),
            7 => Some(Locale::Korean),
            _ => None,
        }
    }
}

/// The type of a column.
#[derive(Debug, Clone, Copy, PartialEq, Eq, Structural)]
pub enum ValueType {
    String,
    Bool,
    Int8,
    UInt8,
    Int16,
    UInt16,
    Int32,
    UInt32,
    Float32,
    Int64,
    UInt64,
    PackedBool0,
    PackedBool1,
    PackedBool2,
    PackedBool3,
    PackedBool4,
    PackedBool5,
    PackedBool6,
    PackedBool7,
}

/// The column type with tag `v`.
pub open spec fn value_type_of(v: u16) -> Option<ValueType> {
    if v == 0x0 { Some(ValueType::String) }
    else if v == 0x1 { Some(ValueType::Bool) }
    else if v == 0x2 { Some(ValueType::Int8) }
    else if v == 0x3 { Some(ValueType::UInt8) }
    else if v == 0x4 { Some(ValueType::Int16) }
    else if v == 0x5 { Some(ValueType::UInt16) }
    else if v == 0x6 { Some(ValueType::Int32) }
    else if v == 0x7 { Some(ValueType::UInt32) }
    else if v == 0x9 { Some(ValueType::Float32) }
    else if v == 0xA { Some(ValueType::Int64) }
    else if v == 0xB { Some(ValueType::UInt64) }
    else if v == 0x19 { Some(ValueType::PackedBool0) }
    else if v == 0x1A { Some(ValueType::PackedBool1) }
    else if v == 0x1B { Some(ValueType::PackedBool2) }
    else if v == 0x1C { Some(ValueType::PackedBool3) }
    else if v == 0x1D { Some(ValueType::PackedBool4) }
    else if v == 0x1E { Some(ValueType::PackedBool5) }
    else if v == 0x1F { Some(ValueType::PackedBool6) }
    else if v == 0x20 { Some(ValueType::PackedBool7) }
    else { None }
}

/// The name of the type that cells of a column type decode to.
pub open spec fn value_type_name(t: ValueType) -> Seq<char> {
    match t {
        ValueType::String => "str"@,
        ValueType::Bool | ValueType::PackedBool0 | ValueType::PackedBool1 | ValueType::PackedBool2
        | ValueType::PackedBool3 | ValueType::PackedBool4 | ValueType::PackedBool5
        | ValueType::PackedBool6 | ValueType::PackedBool7 => "bool"@,
        ValueType::Int8 => "i8"@,
        ValueType::UInt8 => "u8"@,
        ValueType::Int16 => "i16"@,
        ValueType::UInt16 => "u16"@,
        ValueType::Int32 => "i32"@,
        ValueType::UInt32 => "u32"@,
        ValueType::Float32 => "f32"@,
        ValueType::Int64 => "i64"@,
        ValueType::UInt64 => "u64"@,
    }
}

impl ValueType {
    /// The name of the type that cells of this column type decode to.
    pub fn type_tag(self) -> (r: &'static str)
        ensures
            r@ == value_type_name(self),
    {
        match self {
            ValueType::String => "str",
            ValueType::Bool | ValueType::PackedBool0 | ValueType::PackedBool1
            | ValueType::PackedBool2 | ValueType::PackedBool3 | ValueType::PackedBool4
            | ValueType::PackedBool5 | ValueType::PackedBool6 | ValueType::PackedBool7 => "bool",
            ValueType::Int8 => "i8",
            ValueType::UInt8 => "u8",
            ValueType::Int16 => "i16",
            ValueType::UInt16 => "u16",
            ValueType::Int32 => "i32",
            ValueType::UInt32 => "u32",
            ValueType::Float32 => "f32",
            ValueType::Int64 => "i64",
            ValueType::UInt64 => "u64",
        }
    }

    /// The column type with tag `v`.
    pub fn from_tag(v: u16) -> (r: Option<ValueType>)
        ensures
            r == value_type_of(v),
    {
        match v {
            0x0 => Some(ValueType::String),
            0x1 => Some(ValueType::Bool),
            0x2 => Some(ValueType::Int8),
            0x3 => Some(ValueType::UInt8),
            0x4 => Some(ValueType::Int16),
            0x5 => Some(ValueType::UInt16),
            0x6 => Some(ValueType::Int32),
            0x7 => Some(ValueType::UInt32),
            0x9 => Some(ValueType::Float32),
            0xA => Some(ValueType::Int64),
            0xB => Some(ValueType::UInt64),
            0x19 => Some(ValueType::PackedBool0),
            0x1A => Some(ValueType::PackedBool1),
            0x1B => Some(ValueType::PackedBool2),
            0x1C => Some(ValueType::PackedBool3),
            0x1D => Some(ValueType::PackedBool4),
            0x1E => Some(ValueType::PackedBool5),
            0x1F => Some(ValueType::PackedBool6),
            0x20 => Some(ValueType::PackedBool7),
            _ => None,
        }
    }
}

/// The layout of a table: one row per id, or several sub-rows per id.
#[derive(Debug, Clone, Copy, PartialEq, Eq, Structural)]
pub enum ExVariant {
    Normal,
    SubRows,
}

/// A column: its type and the offset of its cell within a row.
#[derive(Debug, Clone, Copy, PartialEq, Eq, Structural)]
pub struct ExColumn {
    pub vtype: ValueType,
    pub offset: u16,
}

/// A page: the first row id it holds and how many rows.
#[derive(Debug, Clone, Copy, PartialEq, Eq, Structural)]
pub struct ExPage {
    pub start_id: u32,
    pub row_count: u32,
}

/// A table schema, read from an `.exh` file.
#[derive(Debug)]
pub struct Exh {
    pub unk0: u16,
    /// Size of the fixed cell region of a row; the row's string heap follows it.
    pub data_offset: u16,
    pub column_count: u16,
    pub page_count: u16,
    pub language_count: u16,
    pub unk1: u16,
    pub u2: u8,
    pub variant: ExVariant,
    pub unk2: u16,
    pub row_count: u32,
    pub unk3: u32,
    pub unk4: u32,
    pub columns: Vec<ExColumn>,
    pub pages: Vec<ExPage>,
    pub languages: Vec<Locale>,
}

/// Where the page table of a schema with `c` columns starts.
pub open spec fn exh_pages_at(c: int) -> int {
    32 + 4 * c
}

/// Where the language table of a schema with `c` columns and `p` pages starts.
pub open spec fn exh_languages_at(c: int, p: int) -> int {
    32 + 4 * c + 8 * p
}

/// Column `i` as stored in `s`.
pub open spec fn exh_column(s: Seq<u8>, i: int) -> Option<ExColumn> {
    match value_type_of(be_u16(s, 32 + 4 * i)) {
        None => None,
        Some(t) => Some(ExColumn { vtype: t, offset: be_u16(s, 34 + 4 * i) }),
    }
}

/// Page `i` as stored in `s` after `c` columns.
pub open spec fn exh_page(s: Seq<u8>, c: int, i: int) -> ExPage {
    ExPage { start_id: be_u32(s, exh_pages_at(c) + 8 * i), row_count: be_u32(s, exh_pages_at(c) + 8 * i + 4) }
}

/// Language `i` as stored in `s` after `c` columns and `p` pages.
pub open spec fn exh_language(s: Seq<u8>, c: int, p: int, i: int) -> Option<Locale> {
    locale_of(le_u16(s, exh_languages_at(c, p) + 2 * i))
}

/// Is `s` a well-formed schema?
pub open spec fn exh_ok(s: Seq<u8>) -> bool {
    let c = be_u16(s, 8) as int;
    let p = be_u16(s, 10) as int;
    let l = be_u16(s, 12) as int;
    &&& fits(s, 0, 32)
    &&& s.subrange(0, 4) == seq![0x45u8, 0x58u8, 0x48u8, 0x46u8]
    &&& (s[17] == 1 || s[17] == 2)
    &&& fits(s, 0, exh_languages_at(c, p) + 2 * l)
    &&& forall|i: int| 0 <= i < c ==> (#[trigger] exh_column(s, i)) is Some
    &&& forall|i: int| 0 <= i < l ==> (#[trigger] exh_language(s, c, p, i)) is Some
}

impl Exh {
    /// Do the fields equal the schema stored in `s`?
    pub open spec fn is_read_from(&self, s: Seq<u8>) -> bool {
        let c = be_u16(s, 8) as int;
        let p = be_u16(s, 10) as int;
        let l = be_u16(s, 12) as int;
        &&& self.unk0 == be_u16(s, 4)
        &&& self.data_offset == be_u16(s, 6)
        &&& self.column_count == be_u16(s, 8)
        &&& self.page_count == be_u16(s, 10)
        &&& self.language_count == be_u16(s, 12)
        &&& self.unk1 == be_u16(s, 14)
        &&& self.u2 == s[16]
        &&& self.variant == (if s[17] == 1 { ExVariant::Normal } else { ExVariant::SubRows })
        &&& self.unk2 == be_u16(s, 18)
        &&& self.row_count == be_u32(s, 20)
        &&& self.unk3 == be_u32(s, 24)
        &&& self.unk4 == be_u32(s, 28)
        &&& self.columns@ == Seq::new(c as nat, |i: int| exh_column(s, i)->Some_0)
        &&& self.pages@ == Seq::new(p as nat, |i: int| exh_page(s, c, i))
        &&& self.languages@ == Seq::new(l as nat, |i: int| exh_language(s, c, p, i)->Some_0)
    }

    /// Parses the bytes of an `.exh` file.
    pub fn from_bytes(data: &[u8]) -> (r: Result<Exh, XivError>)
        ensures
            exh_ok(data@) ==> (r matches Ok(exh) && exh.is_read_from(data@)),
            !exh_ok(data@) ==> r == Err::<Exh, XivError>(XivError::Exh),
    {
        if data.len() < 32 {
            return Err(XivError::Exh);
        }
        if !(data[0] == 0x45 && data[1] == 0x58 && data[2] == 0x48 && data[3] == 0x46) {
            assert(data@.subrange(0, 4) != seq![0x45u8, 0x58u8, 0x48u8, 0x46u8]) by {
                if data@.subrange(0, 4) == seq![0x45u8, 0x58u8, 0x48u8, 0x46u8] {
                    assert(data@.subrange(0, 4)[0] == data@[0]);
                    assert(data@.subrange(0, 4)[1] == data@[1]);
                    assert(data@.subrange(0, 4)[2] == data@[2]);
                    assert(data@.subrange(0, 4)[3] == data@[3]);
                }
            }
            return Err(XivError::Exh);
        }
        assert(data@.subrange(0, 4) =~= seq![0x45u8, 0x58u8, 0x48u8, 0x46u8]);
        let unk0 = read_u16_be(data, 4).unwrap();
        let data_offset = read_u16_be(data, 6).unwrap();
        let column_count = read_u16_be(data, 8).unwrap();
        let page_count = read_u16_be(data, 10).unwrap();
        let language_count = read_u16_be(data, 12).unwrap();
        let unk1 = read_u16_be(data, 14).unwrap();
        let u2 = data[16];
        let variant = if data[17] == 1 {
            ExVariant::Normal
        } else if data[17] == 2 {
            ExVariant::SubRows
        } else {
            return Err(XivError::Exh);
        };
        let unk2 = read_u16_be(data, 18).unwrap();
        let row_count = read_u32_be(data, 20).unwrap();
        let unk3 = read_u32_be(data, 24).unwrap();
        let unk4 = read_u32_be(data, 28).unwrap();
        let c = column_count as u64;
        let p = page_count as u64;
        let l = language_count as u64;
        let pages_at = 32 + 4 * c;
        let languages_at = pages_at + 8 * p;
        if (data.len() as u64) < languages_at + 2 * l {
            return Err(XivError::Exh);
        }
        let mut columns: Vec<ExColumn> = Vec::new();
        let mut i: u64 = 0;
        while i < c
            invariant
                i <= c,
                c == be_u16(data@, 8),
                fits(data@, 0, 32 + 4 * c),
                columns@ == Seq::new(i as nat, |j: int| exh_column(data@, j)->Some_0),
                forall|j: int| 0 <= j < i ==> (#[trigger] exh_column(data@, j)) is Some,
            decreases c - i,
        {
            let tag = read_u16_be(data, 32 + 4 * i).unwrap();
            let offset = read_u16_be(data, 34 + 4 * i).unwrap();
            let vtype = match ValueType::from_tag(tag) {
                Some(t) => t,
                None => {
                    assert(exh_column(data@, i as int) is None);
                    return Err(XivError::Exh);
                },
            };
            columns.push(ExColumn { vtype, offset });
            i = i + 1;
            assert(columns@ =~= Seq::new(i as nat, |j: int| exh_column(data@, j)->Some_0));
        }
        let mut pages: Vec<ExPage> = Vec::new();
        let mut i: u64 = 0;
        while i < p
            invariant
                i <= p,
                c == be_u16(data@, 8),
                p == be_u16(data@, 10),
                pages_at == exh_pages_at(c as int),
                fits(data@, 0, pages_at + 8 * p),
                pages@ == Seq::new(i as nat, |j: int| exh_page(data@, c as int, j)),
            decreases p - i,
        {
            let start_id = read_u32_be(data, pages_at + 8 * i).unwrap();
            let rows = read_u32_be(data, pages_at + 8 * i + 4).unwrap();
            pages.push(ExPage { start_id, row_count: rows });
            i = i + 1;
            assert(pages@ =~= Seq::new(i as nat, |j: int| exh_page(data@, c as int, j)));
        }
        let mut languages: Vec<Locale> = Vec::new();
        let mut i: u64 = 0;
        while i < l
            invariant
                i <= l,
                c == be_u16(data@, 8),
                p == be_u16(data@, 10),
                l == be_u16(data@, 12),
                languages_at == exh_languages_at(c as int, p as int),
                fits(data@, 0, languages_at + 2 * l),
                languages@ == Seq::new(i as nat, |j: int| exh_language(data@, c as int, p as int, j)->Some_0),
                forall|j: int| 0 <= j < i ==> (#[trigger] exh_language(data@, c as int, p as int, j)) is Some,
            decreases l - i,
        {
            let code = read_u16_le(data, languages_at + 2 * i).unwrap();
            let locale = match Locale::from_code(code) {
                Some(v) => v,
                None => {
                    assert(exh_language(data@, c as int, p as int, i as int) is None);
                    return Err(XivError::Exh);
                },
            };
            languages.push(locale);
            i = i + 1;
            assert(languages@ =~= Seq::new(i as nat, |j: int| exh_language(data@, c as int, p as int, j)->Some_0));
        }
        Ok(Exh {
            unk0,
            data_offset,
            column_count,
            page_count,
            language_count,
            unk1,
            u2,
            variant,
            unk2,
            row_count,
            unk3,
            unk4,
            columns,
            pages,
            languages,
        })
    }
}

/// The locale whose pages a table is read in: the requested one if the schema lists it,
/// else the first listed, else `Locale::Neutral`.
pub open spec fn effective_locale(languages: Seq<Locale>, requested: Locale) -> Locale {
    if languages.contains(requested) {
        requested
    } else if languages.len() > 0 {
        languages[0]
    } else {
        Locale::Neutral
    }
}

/// Picks the locale whose pages a table is read in.
pub fn pick_locale(languages: &Vec<Locale>, requested: Locale) -> (r: Locale)
    ensures
        r == effective_locale(languages@, requested),
{
    let mut i: usize = 0;
    while i < languages.len()
        invariant
            i <= languages@.len(),
            forall|j: int| 0 <= j < i ==> languages@[j] != requested,
        decreases languages@.len() - i,
    {
        if languages[i] == requested {
            assert(languages@.contains(requested));
            return requested;
        }
        i = i + 1;
    }
    if languages.len() > 0 {
        languages[0]
    } else {
        Locale::Neutral
    }
}

/// A requested locale that the schema does not list falls back to the first listed one,
/// or to `Locale::Neutral` when none is listed.
pub proof fn lemma_locale_fallback(languages: Seq<Locale>, requested: Locale)
    requires
        !languages.contains(requested),
    ensures
        languages.len() > 0 ==> effective_locale(languages, requested) == languages[0],
        languages.len() == 0 ==> effective_locale(languages, requested) == Locale::Neutral,
{
}

/// What `str::to_lowercase` makes of `s`.
pub uninterp spec fn lower_of(s: Seq<char>) -> Seq<char>;

/// Relies on `str::to_lowercase`: the result depends on the characters alone.
#[verifier::external_body]
fn lowercase(s: &str) -> (r: String)
    ensures
        r@ == lower_of(s@),
{
    s.to_lowercase()
}

/// Inner path of the schema of the sheet `sheet`.
pub open spec fn exh_path_of_sheet(sheet: Seq<char>) -> Seq<char> {
    "exd/"@ + sheet + ".exh"@
}

/// Inner path of the page starting at `start_id` of the sheet `sheet`, in locale `locale`.
pub open spec fn exd_path_of_sheet(sheet: Seq<char>, start_id: u32, locale: Locale) -> Seq<char> {
    "exd/"@ + sheet + "_"@ + decimal(start_id as nat) + locale_suffix(locale) + ".exd"@
}

/// Inner path of the schema of the (already lower-case) sheet name `sheet`.
pub fn exh_path_of(sheet: &str) -> (r: String)
    ensures
        r@ == exh_path_of_sheet(sheet@),
{
    let mut path = String::from_str("exd/");
    path.append(sheet);
    path.append(".exh");
    path
}

/// Inner path of the schema of the sheet `base_path`, lower-cased.
pub fn exh_path(base_path: &str) -> (r: String)
    ensures
        r@ == exh_path_of_sheet(lower_of(base_path@)),
{
    let sheet = lowercase(base_path);
    exh_path_of(sheet.as_str())
}

/// Inner path of a page of the (already lower-case) sheet name `sheet`.
pub fn exd_path_of(sheet: &str, start_id: u32, locale: Locale) -> (r: String)
    ensures
        r@ == exd_path_of_sheet(sheet@, start_id, locale),
{
    let mut path = String::from_str("exd/");
    path.append(sheet);
    path.append("_");
    push_decimal(&mut path, start_id);
    path.append(locale.suffix());
    path.append(".exd");
    path
}

/// Inner paths of the pages of the sheet `base_path` (lower-cased), in the locale that the
/// schema offers for `locale`, in page order.
pub fn page_paths(exh: &Exh, base_path: &str, locale: Locale) -> (r: Vec<String>)
    ensures
        r@.len() == exh.pages@.len(),
        forall|i: int|
            0 <= i < r@.len() ==> #[trigger] r@[i]@ == exd_path_of_sheet(
                lower_of(base_path@),
                exh.pages@[i].start_id,
                effective_locale(exh.languages@, locale),
            ),
{
    let sheet = lowercase(base_path);
    let effective = pick_locale(&exh.languages, locale);
    let mut paths: Vec<String> = Vec::new();
    let mut i: usize = 0;
    while i < exh.pages.len()
        invariant
            i <= exh.pages@.len(),
            sheet@ == lower_of(base_path@),
            effective == effective_locale(exh.languages@, locale),
            paths@.len() == i,
            forall|j: int|
                0 <= j < i ==> #[trigger] paths@[j]@ == exd_path_of_sheet(
                    sheet@,
                    exh.pages@[j].start_id,
                    effective,
                ),
        decreases exh.pages@.len() - i,
    {
        paths.push(exd_path_of(sheet.as_str(), exh.pages[i].start_id, effective));
        i = i + 1;
    }
    paths
}

/// The value of a cell. A 32-bit float is kept as its IEEE-754 bit pattern.
#[derive(Debug, Clone, PartialEq)]
pub enum Value {
    Bool(bool),
    Int8(i8),
    Int16(i16),
    Int32(i32),
    Int64(i64),
    UInt8(u8),
    UInt16(u16),
    UInt32(u32),
    UInt64(u64),
    Float(u32),
    String(String),
}

/// The name of the type of a value.
pub open spec fn value_name(v: Value) -> Seq<char> {
    match v {
        Value::Bool(_) => "bool"@,
        Value::Int8(_) => "i8"@,
        Value::UInt8(_) => "u8"@,
        Value::Int16(_) => "i16"@,
        Value::UInt16(_) => "u16"@,
        Value::Int32(_) => "i32"@,
        Value::UInt32(_) => "u32"@,
        Value::Int64(_) => "i64"@,
        Value::UInt64(_) => "u64"@,
        Value::Float(_) => "f32"@,
        Value::String(_) => "str"@,
    }
}

impl Value {
    /// The name of the type of the value.
    pub fn type_tag(&self) -> (r: &'static str)
        ensures
            r@ == value_name(*self),
    {
        match self {
            Value::Bool(_) => "bool",
            Value::Int8(_) => "i8",
            Value::UInt8(_) => "u8",
            Value::Int16(_) => "i16",
            Value::UInt16(_) => "u16",
            Value::Int32(_) => "i32",
            Value::UInt32(_) => "u32",
            Value::Int64(_) => "i64",
            Value::UInt64(_) => "u64",
            Value::Float(_) => "f32",
            Value::String(_) => "str",
        }
    }
}

/// What `String::from_utf8_lossy` makes of `b`.
pub uninterp spec fn utf8_lossy(b: Seq<u8>) -> Seq<char>;

/// Relies on `String::from_utf8_lossy`: decodes UTF-8, replacing invalid sequences.
#[verifier::external_body]
fn text_of(b: &[u8]) -> (r: String)
    ensures
        r@ == utf8_lossy(b@),
{
    String::from_utf8_lossy(b).into_owned()
}

/// Index of the first zero byte of `s` at or after `from`, or `s.len()` when there is none.
pub open spec fn find_nul(s: Seq<u8>, from: int) -> int
    decreases s.len() - from,
{
    if from >= s.len() {
        s.len() as int
    } else if s[from] == 0 {
        from
    } else {
        find_nul(s, from + 1)
    }
}

/// How many bytes the cell of a column type occupies.
pub open spec fn cell_width(t: ValueType) -> int {
    match t {
        ValueType::Int16 | ValueType::UInt16 => 2,
        ValueType::String | ValueType::Int32 | ValueType::UInt32 | ValueType::Float32 => 4,
        ValueType::Int64 | ValueType::UInt64 => 8,
        _ => 1,
    }
}

/// Where the text of a string cell starts: in the row's string heap, which follows the
/// `stride` bytes of the cell region.
pub open spec fn string_start(s: Seq<u8>, base: int, stride: u16, col: ExColumn) -> int {
    base + stride + be_u32(s, base + col.offset) as int
}

/// Can the cell of `col` in the row whose cells start at `base` be read from `s`?
pub open spec fn cell_readable(s: Seq<u8>, base: int, stride: u16, col: ExColumn) -> bool {
    &&& fits(s, base + col.offset, cell_width(col.vtype))
    &&& col.vtype == ValueType::String ==> find_nul(s, string_start(s, base, stride, col)) < s.len()
}

/// The single-bit mask `1 << k`, for `k` in `0..8`.
pub open spec fn bit_mask(k: int) -> int {
    if k == 0 { 1 }
    else if k == 1 { 2 }
    else if k == 2 { 4 }
    else if k == 3 { 8 }
    else if k == 4 { 16 }
    else if k == 5 { 32 }
    else if k == 6 { 64 }
    else { 128 }
}

/// Is bit `k` of `b` set?
pub open spec fn bit_set(b: u8, k: int) -> bool {
    (b as int / bit_mask(k)) % 2 == 1
}

/// Is `v` the value of the cell of `col` in the row whose cells start at `base`?
pub open spec fn is_cell(v: Value, s: Seq<u8>, base: int, stride: u16, col: ExColumn) -> bool {
    let p = base + col.offset;
    match col.vtype {
        ValueType::String => {
            let start = string_start(s, base, stride, col);
            v matches Value::String(t) && t@ == utf8_lossy(s.subrange(start, find_nul(s, start)))
        },
        ValueType::Bool => v == Value::Bool(s[p] != 0),
        ValueType::Int8 => v == Value::Int8(s[p] as i8),
        ValueType::UInt8 => v == Value::UInt8(s[p]),
        ValueType::Int16 => v == Value::Int16(be_u16(s, p) as i16),
        ValueType::UInt16 => v == Value::UInt16(be_u16(s, p)),
        ValueType::Int32 => v == Value::Int32(be_u32(s, p) as i32),
        ValueType::UInt32 => v == Value::UInt32(be_u32(s, p)),
        ValueType::Float32 => v == Value::Float(be_u32(s, p)),
        ValueType::Int64 => v == Value::Int64(crate::bytes::be_u64(s, p) as i64),
        ValueType::UInt64 => v == Value::UInt64(crate::bytes::be_u64(s, p)),
        ValueType::PackedBool0 => v == Value::Bool(bit_set(s[p], 0)),
        ValueType::PackedBool1 => v == Value::Bool(bit_set(s[p], 1)),
        ValueType::PackedBool2 => v == Value::Bool(bit_set(s[p], 2)),
        ValueType::PackedBool3 => v == Value::Bool(bit_set(s[p], 3)),
        ValueType::PackedBool4 => v == Value::Bool(bit_set(s[p], 4)),
        ValueType::PackedBool5 => v == Value::Bool(bit_set(s[p], 5)),
        ValueType::PackedBool6 => v == Value::Bool(bit_set(s[p], 6)),
        ValueType::PackedBool7 => v == Value::Bool(bit_set(s[p], 7)),
    }
}

/// The error a cell that cannot be read gives.
fn cell_error() -> (r: XivError)
    ensures
        r is ExdDeserialization,
{
    XivError::ExdDeserialization(String::from_str("cell lies outside the exd data"))
}

/// Decodes the cell of `col` in the row whose cells start at `base`.
pub fn read_cell(data: &[u8], base: u64, stride: u16, col: ExColumn) -> (r: Result<Value, XivError>)
    ensures
        cell_readable(data@, base as int, stride, col) ==> (r matches Ok(v) && is_cell(
            v,
            data@,
            base as int,
            stride,
            col,
        )),
        !cell_readable(data@, base as int, stride, col) ==> r matches Err(
            XivError::ExdDeserialization(_),
        ),
{
    let len = data.len() as u128;
    let p128 = base as u128 + col.offset as u128;
    if p128 > len {
        return Err(cell_error());
    }
    let p = p128 as u64;
    let pu = p as usize;
    match col.vtype {
        ValueType::String => {
            let off = match read_u32_be(data, p) {
                Some(v) => v,
                None => return Err(cell_error()),
            };
            let start128 = base as u128 + stride as u128 + off as u128;
            if start128 >= len {
                assert(find_nul(data@, start128 as int) == data@.len());
                return Err(cell_error());
            }
            let start = start128 as usize;
            let mut end = start;
            while end < data.len() && data[end] != 0
                invariant
                    start <= end <= data@.len(),
                    find_nul(data@, end as int) == find_nul(data@, start as int),
                decreases data@.len() - end,
            {
                end = end + 1;
            }
            if end >= data.len() {
                return Err(cell_error());
            }
            assert(find_nul(data@, end as int) == end as int);
            let text = text_of(vstd::slice::slice_subrange(data, start, end));
            Ok(Value::String(text))
        },
        ValueType::Int16 | ValueType::UInt16 => match read_u16_be(data, p) {
            None => Err(cell_error()),
            Some(v) => if col.vtype == ValueType::Int16 {
                Ok(Value::Int16(#[verifier::truncate] (v as i16)))
            } else {
                Ok(Value::UInt16(v))
            },
        },
        ValueType::Int32 | ValueType::UInt32 | ValueType::Float32 => match read_u32_be(data, p) {
            None => Err(cell_error()),
            Some(v) => if col.vtype == ValueType::Int32 {
                Ok(Value::Int32(#[verifier::truncate] (v as i32)))
            } else if col.vtype == ValueType::UInt32 {
                Ok(Value::UInt32(v))
            } else {
                Ok(Value::Float(v))
            },
        },
        ValueType::Int64 | ValueType::UInt64 => match crate::bytes::read_u64_be(data, p) {
            None => Err(cell_error()),
            Some(v) => if col.vtype == ValueType::Int64 {
                Ok(Value::Int64(#[verifier::truncate] (v as i64)))
            } else {
                Ok(Value::UInt64(v))
            },
        },
        _ => {
            if p128 >= len {
                return Err(cell_error());
            }
            let b = data[pu];
            match col.vtype {
                ValueType::Bool => Ok(Value::Bool(b != 0)),
                ValueType::Int8 => Ok(Value::Int8(#[verifier::truncate] (b as i8))),
                ValueType::UInt8 => Ok(Value::UInt8(b)),
                ValueType::PackedBool0 => Ok(Value::Bool(b % 2 == 1)),
                ValueType::PackedBool1 => Ok(Value::Bool((b / 2) % 2 == 1)),
                ValueType::PackedBool2 => Ok(Value::Bool((b / 4) % 2 == 1)),
                ValueType::PackedBool3 => Ok(Value::Bool((b / 8) % 2 == 1)),
                ValueType::PackedBool4 => Ok(Value::Bool((b / 16) % 2 == 1)),
                ValueType::PackedBool5 => Ok(Value::Bool((b / 32) % 2 == 1)),
                ValueType::PackedBool6 => Ok(Value::Bool((b / 64) % 2 == 1)),
                _ => Ok(Value::Bool((b / 128) % 2 == 1)),
            }
        },
    }
}

/// Reads the values of one row in order: its id, its sub-id (for sub-rows), then one value per
/// column of the schema, in column order.
pub struct ExdRowReader<'a> {
    pub exh: &'a Exh,
    pub exd_data: &'a [u8],
    pub id: u32,
    pub id_expected: bool,
    pub subid: u16,
    pub subid_expected: bool,
    /// Where the row's cells start.
    pub offset: u64,
    /// The next column to read.
    pub column_idx: usize,
}

impl<'a> ExdRowReader<'a> {
    pub fn new(exh: &'a Exh, exd_data: &'a [u8], id: u32, subid: Option<u16>, offset: u64) -> (r:
        Self)
        ensures
            r.exh == exh,
            r.exd_data == exd_data,
            r.id == id,
            r.id_expected,
            subid is Some ==> r.subid == subid->Some_0,
            r.subid_expected == subid is Some,
            r.offset == offset,
            r.column_idx == 0,
    {
        ExdRowReader {
            exh,
            exd_data,
            id,
            id_expected: true,
            subid: match subid {
                Some(v) => v,
                None => 0,
            },
            subid_expected: subid.is_some(),
            offset,
            column_idx: 0,
        }
    }

    /// Are there values left to read?
    pub fn has_next(&self) -> (r: bool)
        ensures
            r == (self.id_expected || self.subid_expected || self.column_idx
                < self.exh.columns@.len()),
    {
        self.id_expected || self.subid_expected || self.column_idx < self.exh.columns.len()
    }

    /// Reads the next value of the row.
    pub fn next_value(&mut self) -> (r: Result<Value, XivError>)
        ensures
            final(self).exh == old(self).exh,
            final(self).exd_data == old(self).exd_data,
            final(self).id == old(self).id,
            final(self).subid == old(self).subid,
            final(self).offset == old(self).offset,
            old(self).id_expected ==> r == Ok::<Value, XivError>(Value::UInt32(old(self).id))
                && !final(self).id_expected && final(self).subid_expected == old(
                self,
            ).subid_expected && final(self).column_idx == old(self).column_idx,
            !old(self).id_expected && old(self).subid_expected ==> r == Ok::<Value, XivError>(
                Value::UInt16(old(self).subid),
            ) && !final(self).id_expected && !final(self).subid_expected && final(self).column_idx
                == old(self).column_idx,
            !old(self).id_expected && !old(self).subid_expected ==> {
                &&& !final(self).id_expected && !final(self).subid_expected
                &&& old(self).column_idx < old(self).exh.columns@.len() ==> {
                    let col = old(self).exh.columns@[old(self).column_idx as int];
                    let s = old(self).exd_data@;
                    let stride = old(self).exh.data_offset;
                    &&& final(self).column_idx == old(self).column_idx + 1
                    &&& cell_readable(s, old(self).offset as int, stride, col) ==> (r matches Ok(v)
                        && is_cell(v, s, old(self).offset as int, stride, col))
                    &&& !cell_readable(s, old(self).offset as int, stride, col) ==> r matches Err(
                        XivError::ExdDeserialization(_),
                    )
                }
                &&& old(self).column_idx >= old(self).exh.columns@.len() ==> (r matches Err(
                    XivError::ExdDeserialization(_),
                ) && final(self).column_idx == old(self).column_idx)
            },
    {
        if self.id_expected {
            self.id_expected = false;
            Ok(Value::UInt32(self.id))
        } else if self.subid_expected {
            self.subid_expected = false;
            Ok(Value::UInt16(self.subid))
        } else if self.column_idx < self.exh.columns.len() {
            let col = self.exh.columns[self.column_idx];
            self.column_idx = self.column_idx + 1;
            read_cell(self.exd_data, self.offset, self.exh.data_offset, col)
        } else {
            Err(XivError::ExdDeserialization(String::from_str("not enough columns in exd file")))
        }
    }
}

/// A row pointer of an `.exd` file: a row id and the offset of the row in the file.
#[derive(Debug, Clone, Copy, PartialEq, Eq, Structural)]
pub struct ExdRowPtr {
    pub id: u32,
    pub offset: u32,
}

/// The row pointers of an `.exd` file, if its header is well formed.
pub open spec fn exd_rows(s: Seq<u8>) -> Option<Seq<ExdRowPtr>> {
    let n = be_u32(s, 8) as int / 8;
    if fits(s, 0, 32) && s.subrange(0, 4) == seq![0x45u8, 0x58u8, 0x44u8, 0x46u8] && fits(
        s,
        32,
        8 * n,
    ) {
        Some(
            Seq::new(
                n as nat,
                |i: int| ExdRowPtr { id: be_u32(s, 32 + 8 * i), offset: be_u32(s, 36 + 8 * i) },
            ),
        )
    } else {
        None
    }
}

/// The header of an `.exd` file: its row pointer table.
pub struct ExdHeader {
    pub version: u16,
    pub index_size: u32,
    pub rows: Vec<ExdRowPtr>,
}

impl ExdHeader {
    /// Parses the header of an `.exd` file.
    pub fn from_bytes(data: &[u8]) -> (r: Result<ExdHeader, XivError>)
        ensures
            match exd_rows(data@) {
                Some(rows) => r matches Ok(h) && h.rows@ == rows,
                None => r == Err::<ExdHeader, XivError>(XivError::ExdFileHeader),
            },
    {
        if data.len() < 32 {
            return Err(XivError::ExdFileHeader);
        }
        if !(data[0] == 0x45 && data[1] == 0x58 && data[2] == 0x44 && data[3] == 0x46) {
            assert(data@.subrange(0, 4) != seq![0x45u8, 0x58u8, 0x44u8, 0x46u8]) by {
                if data@.subrange(0, 4) == seq![0x45u8, 0x58u8, 0x44u8, 0x46u8] {
                    assert(data@.subrange(0, 4)[0] == data@[0]);
                    assert(data@.subrange(0, 4)[1] == data@[1]);
                    assert(data@.subrange(0, 4)[2] == data@[2]);
                    assert(data@.subrange(0, 4)[3] == data@[3]);
                }
            }
            return Err(XivError::ExdFileHeader);
        }
        assert(data@.subrange(0, 4) =~= seq![0x45u8, 0x58u8, 0x44u8, 0x46u8]);
        let version = read_u16_be(data, 4).unwrap();
        let index_size = read_u32_be(data, 8).unwrap();
        let n = (index_size / 8) as u64;
        if (data.len() as u64) - 32 < 8 * n {
            return Err(XivError::ExdFileHeader);
        }
        let mut rows: Vec<ExdRowPtr> = Vec::new();
        let mut i: u64 = 0;
        while i < n
            invariant
                i <= n,
                n == be_u32(data@, 8) as int / 8,
                fits(data@, 32, 8 * n),
                rows@ == Seq::new(
                    i as nat,
                    |j: int| ExdRowPtr { id: be_u32(data@, 32 + 8 * j), offset: be_u32(data@, 36 + 8 * j) },
                ),
            decreases n - i,
        {
            let id = read_u32_be(data, 32 + 8 * i).unwrap();
            let offset = read_u32_be(data, 36 + 8 * i).unwrap();
            rows.push(ExdRowPtr { id, offset });
            i = i + 1;
            assert(rows@ =~= Seq::new(
                i as nat,
                |j: int| ExdRowPtr { id: be_u32(data@, 32 + 8 * j), offset: be_u32(data@, 36 + 8 * j) },
            ));
        }
        Ok(ExdHeader { version, index_size, rows })
    }
}

/// Where one row (or sub-row) of a page lies: its id, its sub-id for sub-rows, and where its
/// cells start.
#[derive(Debug, Clone, Copy, PartialEq, Eq, Structural)]
pub struct RowSpot {
    pub id: u32,
    pub subid: Option<u16>,
    pub offset: u64,
}

/// How many rows the row pointer `ptr` stands for: one, or its sub-row count.
pub open spec fn row_subrows(s: Seq<u8>, variant: ExVariant, ptr: ExdRowPtr) -> Result<
    nat,
    XivError,
> {
    if !fits(s, ptr.offset as int, 6) {
        Err(XivError::ExdRowHeader)
    } else if variant == ExVariant::Normal {
        Ok(1)
    } else {
        Ok(be_u16(s, ptr.offset + 4) as nat)
    }
}

/// Sub-row `k` of the row at `ptr`.
pub open spec fn row_spot(s: Seq<u8>, variant: ExVariant, stride: u16, ptr: ExdRowPtr, k: int) -> Result<
    RowSpot,
    XivError,
> {
    if variant == ExVariant::Normal {
        Ok(RowSpot { id: ptr.id, subid: None, offset: (ptr.offset + 6) as u64 })
    } else {
        let pos = ptr.offset + 6 + (2 + stride) * k;
        if fits(s, pos, 2) {
            Ok(RowSpot { id: ptr.id, subid: Some(be_u16(s, pos)), offset: (pos + 2) as u64 })
        } else {
            Err(XivError::ExdSubRowHeader)
        }
    }
}

/// The rows of a page from sub-row `k` of row pointer `i` on, and the error that ends them
/// early, if any.
pub open spec fn spots_from(
    s: Seq<u8>,
    variant: ExVariant,
    stride: u16,
    rows: Seq<ExdRowPtr>,
    i: int,
    k: int,
) -> (Seq<RowSpot>, Option<XivError>)
    decreases rows.len() - i, 0x10000 - k,
{
    if i < 0 || i >= rows.len() || k < 0 || k > 0x10000 {
        (Seq::empty(), None)
    } else {
        match row_subrows(s, variant, rows[i]) {
            Err(e) => (Seq::empty(), Some(e)),
            Ok(n) => {
                if k >= n {
                    spots_from(s, variant, stride, rows, i + 1, 0)
                } else {
                    match row_spot(s, variant, stride, rows[i], k) {
                        Err(e) => (Seq::empty(), Some(e)),
                        Ok(spot) => {
                            let rest = spots_from(s, variant, stride, rows, i, k + 1);
                            (seq![spot] + rest.0, rest.1)
                        },
                    }
                }
            },
        }
    }
}

/// How many rows the row pointers from `i` on stand for: one each, or each one's sub-row count.
pub open spec fn rows_total(s: Seq<u8>, variant: ExVariant, rows: Seq<ExdRowPtr>, i: int) -> nat
    decreases rows.len() - i,
{
    if i < 0 || i >= rows.len() {
        0
    } else {
        let n = match row_subrows(s, variant, rows[i]) {
            Ok(n) => n,
            Err(_) => 0,
        };
        n + rows_total(s, variant, rows, i + 1)
    }
}

/// How many rows are left from sub-row `k` of row pointer `i` on.
spec fn rows_left(s: Seq<u8>, variant: ExVariant, rows: Seq<ExdRowPtr>, i: int, k: int) -> int {
    if i >= rows.len() {
        0
    } else {
        let n = row_subrows(s, variant, rows[i])->Ok_0 as int;
        (if k < n { n - k } else { 0 }) + rows_total(s, variant, rows, i + 1)
    }
}

proof fn lemma_spots_len(
    s: Seq<u8>,
    variant: ExVariant,
    stride: u16,
    rows: Seq<ExdRowPtr>,
    i: int,
    k: int,
)
    requires
        0 <= i,
        0 <= k <= 0x10000,
        spots_from(s, variant, stride, rows, i, k).1 is None,
    ensures
        spots_from(s, variant, stride, rows, i, k).0.len() == rows_left(s, variant, rows, i, k),
    decreases rows.len() - i, 0x10000 - k,
{
    if i < rows.len() {
        let n = row_subrows(s, variant, rows[i])->Ok_0 as int;
        if k >= n {
            lemma_spots_len(s, variant, stride, rows, i + 1, 0);
            if i + 1 < rows.len() {
                assert(row_subrows(s, variant, rows[i + 1]) is Ok);
            }
        } else {
            lemma_spots_len(s, variant, stride, rows, i, k + 1);
        }
    }
}

/// When a page reads without error, it yields one row per row pointer, or each pointer's
/// sub-row count of rows for sub-row tables.
pub proof fn lemma_page_row_count(s: Seq<u8>, variant: ExVariant, stride: u16, rows: Seq<ExdRowPtr>)
    requires
        spots_from(s, variant, stride, rows, 0, 0).1 is None,
    ensures
        spots_from(s, variant, stride, rows, 0, 0).0.len() == rows_total(s, variant, rows, 0),
{
    lemma_spots_len(s, variant, stride, rows, 0, 0);
    if rows.len() > 0 {
        assert(row_subrows(s, variant, rows[0]) is Ok);
    }
}

/// Walks the rows of one `.exd` page; the pointer table is read on the first call.
pub struct ExdPageReader {
    pub variant: ExVariant,
    pub stride: u16,
    /// The row count that the schema announces.
    pub row_count: u32,
    pub exd_data: Vec<u8>,
    pub rows: Option<Vec<ExdRowPtr>>,
    pub row_index: usize,
    pub subrow_index: u32,
    pub done: bool,
}

impl ExdPageReader {
    /// Is the reader's state consistent with its data?
    pub open spec fn wf(&self) -> bool {
        &&& self.rows is None ==> self.row_index == 0 && self.subrow_index == 0
        &&& self.rows is Some ==> exd_rows(self.exd_data@) == Some(self.rows->Some_0@)
        &&& self.subrow_index <= 0x10000
    }

    /// The rows still to come, and the error that ends them early, if any.
    pub open spec fn remaining(&self) -> (Seq<RowSpot>, Option<XivError>) {
        if self.done {
            (Seq::empty(), None)
        } else {
            match self.rows {
                None => match exd_rows(self.exd_data@) {
                    None => (Seq::empty(), Some(XivError::ExdFileHeader)),
                    Some(rows) => spots_from(self.exd_data@, self.variant, self.stride, rows, 0, 0),
                },
                Some(rows) => spots_from(
                    self.exd_data@,
                    self.variant,
                    self.stride,
                    rows@,
                    self.row_index as int,
                    self.subrow_index as int,
                ),
            }
        }
    }

    /// A reader of the page whose bytes are `exd_data`, under the schema `exh`.
    pub fn new(exh: &Exh, exd_data: Vec<u8>) -> (r: Self)
        ensures
            r.wf(),
            r.variant == exh.variant,
            r.stride == exh.data_offset,
            r.row_count == exh.row_count,
            r.exd_data@ == exd_data@,
            r.remaining() == (match exd_rows(exd_data@) {
                None => (Seq::<RowSpot>::empty(), Some(XivError::ExdFileHeader)),
                Some(rows) => spots_from(exd_data@, exh.variant, exh.data_offset, rows, 0, 0),
            }),
    {
        ExdPageReader {
            variant: exh.variant,
            stride: exh.data_offset,
            row_count: exh.row_count,
            exd_data,
            rows: None,
            row_index: 0,
            subrow_index: 0,
            done: false,
        }
    }

    /// Bounds on the number of rows still to come: none once the page is done, else the
    /// schema's row count less the row pointers passed; sub-row tables may yield up to 65535
    /// rows per pointer.
    pub fn size_hint(&self) -> (r: (usize, Option<usize>))
        ensures
            r.0 == (if self.done {
                0
            } else if self.row_count >= self.row_index {
                self.row_count - self.row_index
            } else {
                0
            }),
            self.variant == ExVariant::Normal ==> r.1 == Some(r.0),
            self.variant == ExVariant::SubRows ==> (r.0 * 65535 <= usize::MAX ==> r.1 == Some((r.0 * 65535) as usize))
                && (r.0 * 65535 > usize::MAX ==> r.1 is None),
    {
        let total = self.row_count as usize;
        let remaining = if self.done {
            0
        } else if total >= self.row_index {
            total - self.row_index
        } else {
            0
        };
        match self.variant {
            ExVariant::Normal => (remaining, Some(remaining)),
            ExVariant::SubRows => (remaining, remaining.checked_mul(65535)),
        }
    }

    /// The bytes of the page.
    pub fn exd_data(&self) -> (r: &[u8])
        ensures
            r@ == self.exd_data@,
    {
        self.exd_data.as_slice()
    }

    /// Moves to the next row: yields its place, or the error that ends the page; after the
    /// last row, or after an error, yields nothing.
    pub fn next_row(&mut self) -> (r: Option<Result<RowSpot, XivError>>)
        requires
            old(self).wf(),
        ensures
            final(self).wf(),
            final(self).variant == old(self).variant,
            final(self).stride == old(self).stride,
            final(self).row_count == old(self).row_count,
            final(self).done || final(self).exd_data@ == old(self).exd_data@,
            ({
                let (spots, err) = old(self).remaining();
                if spots.len() > 0 {
                    r == Some(Ok::<RowSpot, XivError>(spots[0])) && final(self).remaining() == (
                    spots.drop_first(), err)
                } else if err is Some {
                    r == Some(Err::<RowSpot, XivError>(err->Some_0)) && final(self).remaining() == (
                    Seq::<RowSpot>::empty(), None::<XivError>)
                } else {
                    r is None && final(self).remaining() == (Seq::<RowSpot>::empty(), None::<
                        XivError,
                    >)
                }
            }),
    {
        if self.done {
            return None;
        }
        if self.rows.is_none() {
            match ExdHeader::from_bytes(self.exd_data.as_slice()) {
                Err(e) => {
                    self.done = true;
                    return Some(Err(e));
                },
                Ok(h) => {
                    self.rows = Some(h.rows);
                },
            }
        }
        let ghost s = self.exd_data@;
        let ghost goal = self.remaining();
        let ghost variant = self.variant;
        let ghost stride = self.stride;
        let rows = self.rows.as_ref().unwrap();
        let ghost rs = rows@;
        while self.row_index < rows.len()
            invariant
                !self.done,
                self.rows == Some(*rows),
                rs == rows@,
                s == self.exd_data@,
                variant == self.variant,
                stride == self.stride,
                self.variant == old(self).variant,
                self.stride == old(self).stride,
                self.row_count == old(self).row_count,
                self.exd_data@ == old(self).exd_data@,
                goal == old(self).remaining(),
                self.wf(),
                self.remaining() == goal,
            decreases rows@.len() - self.row_index, 0x10000 - self.subrow_index,
        {
            let ptr = rows[self.row_index];
            let count = match read_u16_be(self.exd_data.as_slice(), ptr.offset as u64 + 4) {
                Some(c) => c,
                None => {
                    self.done = true;
                    return Some(Err(XivError::ExdRowHeader));
                },
            };
            let n: u32 = match self.variant {
                ExVariant::Normal => 1,
                ExVariant::SubRows => count as u32,
            };
            if self.subrow_index >= n {
                self.row_index = self.row_index + 1;
                self.subrow_index = 0;
            } else {
                let spot = match self.variant {
                    ExVariant::Normal => RowSpot { id: ptr.id, subid: None, offset: ptr.offset as u64 + 6 },
                    ExVariant::SubRows => {
                        let a: u64 = 2 + self.stride as u64;
                        let k: u64 = self.subrow_index as u64;
                        assert(a * k <= 0x10001 * 0x10000) by (nonlinear_arith)
                            requires
                                a <= 0x10001,
                                k <= 0x10000,
                        ;
                        let pos = ptr.offset as u64 + 6 + a * k;
                        match read_u16_be(self.exd_data.as_slice(), pos) {
                            Some(subid) => RowSpot { id: ptr.id, subid: Some(subid), offset: pos + 2 },
                            None => {
                                self.done = true;
                                return Some(Err(XivError::ExdSubRowHeader));
                            },
                        }
                    },
                };
                proof {
                    let rest = spots_from(s, variant, stride, rs, self.row_index as int, self.subrow_index + 1);
                    assert(goal.0 =~= seq![spot] + rest.0);
                    assert(goal.0.drop_first() =~= rest.0);
                }
                self.subrow_index = self.subrow_index + 1;
                return Some(Ok(spot));
            }
        }
        self.done = true;
        self.rows = None;
        self.row_index = 0;
        self.subrow_index = 0;
        self.exd_data = Vec::new();
        None
    }
}

} // verus!
