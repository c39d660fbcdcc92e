use vstd::prelude::*;

verus! {

/// Every failure that reading a repository can report.
#[derive(Debug, Clone, PartialEq, Eq)]
pub enum XivError {
    /// A repository file name does not have the `<cat><exp><patch>.win32.<kind>` shape.
    PackIdRepoFile,
    /// An inner file path cannot be split into its parts.
    PackIdInnerPath,
    /// The first segment of an inner file path names no known category.
    PackIdCategory,
    /// The expansion part of a path is invalid.
    PackIdExpansion,
    /// The patch part of a path is invalid.
    PackIdPatch,
    /// A position in an `.index2` file lies outside the file.
    Index2Seek,
    /// The header of an `.index2` file is missing or malformed.
    Index2Header,
    /// An entry of an `.index2` file is truncated.
    Index2Entry,
    /// A position in a `.dat` file lies outside the file.
    DatSeek,
    /// The header of an inner file is missing or malformed.
    DatFileHeader,
    /// The header of a block is missing or malformed.
    DatBlockHeader,
    /// The payload of a block is truncated or does not inflate.
    DatBlockDecoding,
    /// An `.exh` file is malformed.
    Exh,
    /// No `.exh` file exists under the given path.
    ExhNotFound(String),
    /// No `.exd` file exists under the given path.
    ExdNotFound(String),
    /// A position in an `.exd` file lies outside the file.
    ExdSeek,
    /// The header of an `.exd` file is missing or malformed.
    ExdFileHeader,
    /// A row header of an `.exd` file is truncated.
    ExdRowHeader,
    /// A sub-row header of an `.exd` file is truncated.
    ExdSubRowHeader,
    /// A row's cells could not be bound to the requested record.
    ExdDeserialization(String),
    /// Exporting an image of this format is not supported.
    TexFormat(u32),
    /// The pixel data of an image is invalid or truncated.
    TexData,
}

} // verus!
