//! Configuration values, as plain data: sectioned settings with the legacy
//! flat keys they fall back to.

use vstd::prelude::*;

verus! {

/// The tool's configuration.  Newer sectioned keys win over the legacy flat
/// keys kept beside them.
#[derive(Debug)]
pub struct Config {
    pub database: Option<DatabaseSource>,
    pub rss: RssSection,
    pub ical: IcalSection,
    pub import: ImportSection,
    pub rss_output: Option<String>,
    pub ical_output: Option<String>,
    pub import_source: Option<String>,
}

#[derive(Debug)]
pub struct RssSection {
    pub output: Option<String>,
}

#[derive(Debug)]
pub struct IcalSection {
    pub output: Option<String>,
}

#[derive(Debug)]
pub struct ImportSection {
    pub source: Option<String>,
}

/// The database key accepts either a bare path or a section with a path.
#[derive(Debug)]
pub enum DatabaseSource {
    Path(String),
    Section(DatabaseSection),
}

#[derive(Debug)]
pub struct DatabaseSection {
    pub path: Option<String>,
}

/// The view of an optional text.
pub open spec fn opt_text(o: Option<String>) -> Option<Seq<char>> {
    match o {
        Some(s) => Some(s@),
        None => None,
    }
}

/// The database path the configuration names, if any.
pub open spec fn spec_database_path(c: Config) -> Option<Seq<char>> {
    match c.database {
        Some(DatabaseSource::Path(p)) => Some(p@),
        Some(DatabaseSource::Section(sec)) => opt_text(sec.path),
        None => None,
    }
}

/// The first of two optional texts, the sectioned key before the legacy one.
pub open spec fn first_of(a: Option<String>, b: Option<String>) -> Option<Seq<char>> {
    if a is Some {
        opt_text(a)
    } else {
        opt_text(b)
    }
}

fn clone_opt(o: &Option<String>) -> (r: Option<String>)
    ensures
        opt_text(r) == opt_text(*o),
{
    match o {
        Some(s) => Some(s.clone()),
        None => None,
    }
}

impl Config {
    /// The configured database path, from either accepted shape of the key.
    pub fn database_path(&self) -> (r: Option<String>)
        ensures
            opt_text(r) == spec_database_path(*self),
    {
        match &self.database {
            Some(DatabaseSource::Path(p)) => Some(p.clone()),
            Some(DatabaseSource::Section(sec)) => clone_opt(&sec.path),
            None => None,
        }
    }

    /// The RSS output path: the sectioned key, else the legacy flat key.
    pub fn rss_output_path(&self) -> (r: Option<String>)
        ensures
            opt_text(r) == first_of(self.rss.output, self.rss_output),
    {
        match &self.rss.output {
            Some(p) => Some(p.clone()),
            None => clone_opt(&self.rss_output),
        }
    }

    /// The iCalendar output path: the sectioned key, else the legacy flat key.
    pub fn ical_output_path(&self) -> (r: Option<String>)
        ensures
            opt_text(r) == first_of(self.ical.output, self.ical_output),
    {
        match &self.ical.output {
            Some(p) => Some(p.clone()),
            None => clone_opt(&self.ical_output),
        }
    }

    /// The import source path: the sectioned key, else the legacy flat key.
    pub fn import_source_path(&self) -> (r: Option<String>)
        ensures
            opt_text(r) == first_of(self.import.source, self.import_source),
    {
        match &self.import.source {
            Some(p) => Some(p.clone()),
            None => clone_opt(&self.import_source),
        }
    }
}

} // verus!
