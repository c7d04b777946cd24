//! The trip-report document and its highlight counterpart.

use vstd::prelude::*;

verus! {

/// Rendered form of a report's body, made for the report page.
pub struct ReportProcessed {
    pub body: String,
}

/// Highlight fragments the engine returned for one report.
pub struct ReportHighlight {
    pub body: Option<Vec<String>>,
    pub title: Option<Vec<String>>,
}

/// A trip report as stored in the index.
pub struct Report {
    pub meta: Meta,
    pub author: String,
    /// Raw text; paragraphs are separated by a blank line written `\r\n\r\n`.
    pub body: String,
    pub erowid_notes: Vec<String>,
    pub pull_quotes: Vec<String>,
    pub substance: String,
    pub substance_info: Vec<SubstanceInfo>,
    pub title: String,
    pub processed: Option<ReportProcessed>,
}

/// Metadata block of a report; `erowid_id` is its stable identifier.
pub struct Meta {
    pub year: Option<i64>,
    pub erowid_id: i64,
    pub gender: Option<String>,
    pub age: Option<i64>,
    pub published: String,
    pub views: Option<i64>,
    pub erowid_attributes: Option<ErowidAttributes>,
}

/// Category and attribute tags attached by the report's publisher.
pub struct ErowidAttributes {
    pub categories: Vec<Category>,
    pub attributes: Vec<Attribute>,
}

pub struct Category {
    pub name: String,
    pub id: i64,
}

pub struct Attribute {
    pub name: String,
    pub id: i64,
}

/// One substance taken; an empty field means "unspecified".
pub struct SubstanceInfo {
    pub amount: String,
    pub method: String,
    pub substance: String,
    pub form: String,
}

} // verus!
