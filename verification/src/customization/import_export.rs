//! Import/export: formats and how they are told from a file's extension,
//! package manifests and their validation, and the import history.
use vstd::prelude::*;
use crate::customization::CustomizationError;
use crate::text::{owned, str_eq};

verus! {

/// Export format.
#[derive(Debug, Clone, Copy, PartialEq, Eq, Structural)]
pub enum ExportFormat {
    Json,
    Yaml,
    Toml,
    TarGz,
    Zip,
    Base64,
}

/// Import source. A file is named by its path.
#[derive(Debug)]
pub enum ImportSource {
    File(String),
    String(String),
    Bytes(Vec<u8>),
    Url(String),
}

/// Export target. A file is named by its path.
#[derive(Debug)]
pub enum ExportTarget {
    File(String),
    String,
    Bytes,
}

/// Package manifest. Times are milliseconds since the Unix epoch.
#[derive(Debug)]
pub struct PackageManifest {
    pub name: String,
    pub version: String,
    pub created_at: i64,
    pub description: Option<String>,
    pub author: Option<String>,
    pub dependencies: Vec<String>,
}

/// Import record.
#[derive(Debug)]
pub struct ImportRecord {
    pub name: String,
    pub source: String,
    pub timestamp: i64,
    pub success: bool,
    pub error: Option<String>,
}

impl ImportRecord {
    /// A copy of the record.
    pub fn duplicate(&self) -> (r: Self)
        ensures r == *self,
    {
        ImportRecord {
            name: self.name.clone(),
            source: self.source.clone(),
            timestamp: self.timestamp,
            success: self.success,
            error: match &self.error {
                Some(e) => Some(e.clone()),
                None => None,
            },
        }
    }
}

/// The format a file extension names.
pub open spec fn format_of_extension(ext: Option<Seq<char>>) -> Option<ExportFormat> {
    match ext {
        Some(e) => {
            if e == "json"@ { Some(ExportFormat::Json) }
            else if e == "yaml"@ || e == "yml"@ { Some(ExportFormat::Yaml) }
            else if e == "toml"@ { Some(ExportFormat::Toml) }
            else if e == "tar.gz"@ || e == "tgz"@ { Some(ExportFormat::TarGz) }
            else if e == "zip"@ { Some(ExportFormat::Zip) }
            else if e == "b64"@ { Some(ExportFormat::Base64) }
            else { None }
        },
        None => None,
    }
}

/// The most recent `limit` records (all when no limit), newest first.
pub open spec fn recent(h: Seq<ImportRecord>, limit: Option<usize>) -> Seq<ImportRecord> {
    let n = match limit {
        Some(l) => if l < h.len() { l as int } else { h.len() as int },
        None => h.len() as int,
    };
    h.reverse().subrange(0, n)
}

/// The import/export manager's record of imports.
pub struct ImportExport {
    history: Vec<ImportRecord>,
}

impl ImportExport {
    pub closed spec fn records(&self) -> Seq<ImportRecord> {
        self.history@
    }

    /// A manager with no imports recorded.
    pub fn new() -> (m: Self)
        ensures m.records().len() == 0,
    {
        ImportExport { history: Vec::new() }
    }

    /// Record an import.
    pub fn record_import(&mut self, record: ImportRecord)
        ensures final(self).records() == old(self).records().push(record),
    {
        self.history.push(record);
    }

    /// The format of a file, told from its extension; unknown extensions are
    /// refused.
    pub fn detect_format(&self, extension: Option<&str>) -> (r: Result<ExportFormat, CustomizationError>)
        ensures
            match format_of_extension(match extension { Some(e) => Some(e@), None => None }) {
                Some(f) => r == Ok::<ExportFormat, CustomizationError>(f),
                None => r matches Err(CustomizationError::ImportExportError(m)) && m@ == "Unknown file format"@,
            },
    {
        match extension {
            Some(e) => {
                if str_eq(e, "json") { Ok(ExportFormat::Json) }
                else if str_eq(e, "yaml") || str_eq(e, "yml") { Ok(ExportFormat::Yaml) }
                else if str_eq(e, "toml") { Ok(ExportFormat::Toml) }
                else if str_eq(e, "tar.gz") || str_eq(e, "tgz") { Ok(ExportFormat::TarGz) }
                else if str_eq(e, "zip") { Ok(ExportFormat::Zip) }
                else if str_eq(e, "b64") { Ok(ExportFormat::Base64) }
                else { Err(CustomizationError::ImportExportError(owned("Unknown file format"))) }
            },
            None => Err(CustomizationError::ImportExportError(owned("Unknown file format"))),
        }
    }

    /// The recorded imports, newest first, at most `limit` of them.
    pub fn history(&self, limit: Option<usize>) -> (r: Vec<ImportRecord>)
        ensures r@ == recent(self.records(), limit),
    {
        let len = self.history.len();
        let n = match limit {
            Some(l) => if l < len { l } else { len },
            None => len,
        };
        let mut r: Vec<ImportRecord> = Vec::new();
        let mut i: usize = 0;
        while i < n
            invariant
                n <= len,
                len == self.history@.len(),
                i <= n,
                r@ == self.history@.reverse().subrange(0, i as int),
            decreases n - i,
        {
            let rec = self.history[len - 1 - i].duplicate();
            r.push(rec);
            i = i + 1;
            assert(r@ =~= self.history@.reverse().subrange(0, i as int));
        }
        r
    }

    /// A package manifest needs a name and a version.
    pub fn validate(&self, manifest: &PackageManifest) -> (r: Result<(), CustomizationError>)
        ensures
            manifest.name@.len() == 0 ==>
                (r matches Err(CustomizationError::ImportExportError(m)) && m@ == "Package name cannot be empty"@),
            manifest.name@.len() > 0 && manifest.version@.len() == 0 ==>
                (r matches Err(CustomizationError::ImportExportError(m)) && m@ == "Package version cannot be empty"@),
            manifest.name@.len() > 0 && manifest.version@.len() > 0 ==> r is Ok,
    {
        if manifest.name.as_str().unicode_len() == 0 {
            return Err(CustomizationError::ImportExportError(owned("Package name cannot be empty")));
        }
        if manifest.version.as_str().unicode_len() == 0 {
            return Err(CustomizationError::ImportExportError(owned("Package version cannot be empty")));
        }
        Ok(())
    }
}

} // verus!
