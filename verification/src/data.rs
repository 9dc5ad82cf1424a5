//! Where card data comes from and goes to: the files that importers read
//! and exporters write, by their paths. Reading and writing is left to
//! those who have a file system.

use vstd::prelude::*;

verus! {

/// The version of the formats of card data.
pub const FORMAT_VERSION: &'static str = "1.0";

/// A source of card data.
#[derive(Debug, PartialEq, Eq)]
pub struct SourceInfo {
    pub name: String,
    pub format: String,
    pub version: String,
    /// The number of cards of the source, where it is known.
    pub card_count: Option<usize>,
}

impl Clone for SourceInfo {
    fn clone(&self) -> (r: Self)
        ensures
            r == *self,
    {
        SourceInfo {
            name: self.name.clone(),
            format: self.format.clone(),
            version: self.version.clone(),
            card_count: self.card_count,
        }
    }
}

/// A source by its name and format, of the current version and with an
/// unknown number of cards.
pub fn source(name: &String, format: &str) -> (r: SourceInfo)
    ensures
        r.name == *name,
        r.format@ == format@,
        r.version@ == FORMAT_VERSION@,
        r.card_count is None,
{
    SourceInfo {
        name: name.clone(),
        format: String::from_str(format),
        version: String::from_str(FORMAT_VERSION),
        card_count: None,
    }
}

/// Reads cards from a JSON file.
#[derive(Clone, Debug, PartialEq, Eq)]
pub struct JsonImporter {
    pub file_path: String,
}

/// Writes cards to a JSON file.
#[derive(Clone, Debug, PartialEq, Eq)]
pub struct JsonExporter {
    pub file_path: String,
}

/// Reads cards from a CSV file.
#[derive(Clone, Debug, PartialEq, Eq)]
pub struct CsvImporter {
    pub file_path: String,
}

/// Reads cards from a database file.
#[derive(Clone, Debug, PartialEq, Eq)]
pub struct DatabaseImporter {
    pub file_path: String,
}

impl JsonImporter {
    pub fn new(file_path: String) -> (r: Self)
        ensures
            r.file_path == file_path,
    {
        JsonImporter { file_path }
    }

    /// The file as a source of card data.
    pub fn source_info(&self) -> (r: SourceInfo)
        ensures
            r.name == self.file_path,
            r.format@ == "JSON"@,
            r.version@ == FORMAT_VERSION@,
            r.card_count is None,
    {
        source(&self.file_path, "JSON")
    }
}

impl JsonExporter {
    pub fn new(file_path: String) -> (r: Self)
        ensures
            r.file_path == file_path,
    {
        JsonExporter { file_path }
    }
}

impl CsvImporter {
    pub fn new(file_path: String) -> (r: Self)
        ensures
            r.file_path == file_path,
    {
        CsvImporter { file_path }
    }

    /// The file as a source of card data.
    pub fn source_info(&self) -> (r: SourceInfo)
        ensures
            r.name == self.file_path,
            r.format@ == "CSV"@,
            r.version@ == FORMAT_VERSION@,
            r.card_count is None,
    {
        source(&self.file_path, "CSV")
    }
}

impl DatabaseImporter {
    pub fn new(file_path: String) -> (r: Self)
        ensures
            r.file_path == file_path,
    {
        DatabaseImporter { file_path }
    }

    /// The file as a source of card data.
    pub fn source_info(&self) -> (r: SourceInfo)
        ensures
            r.name == self.file_path,
            r.format@ == "Database"@,
            r.version@ == FORMAT_VERSION@,
            r.card_count is None,
    {
        source(&self.file_path, "Database")
    }
}

} // verus!
