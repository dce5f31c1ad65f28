//! The report of a session: which record, in which format, to which place.
//! Writing it out is the caller's.

use crate::metrics::Metrics;
use crate::score::rating;
use crate::score::rating_name;
use crate::score::rating_of;
use crate::score::rating_text;
use vstd::prelude::*;

verus! {

/// The formats of a report.
#[derive(Debug, Clone, Copy, PartialEq, Eq, Structural)]
pub enum OutputFormat {
    Json,
    Csv,
    Html,
    Text,
}

/// A report to be written.
#[derive(Debug, Clone)]
pub struct Report {
    metrics: Metrics,
    output_format: OutputFormat,
    output_file: Option<String>,
}

impl Report {
    /// The record that is reported.
    pub closed spec fn spec_metrics(&self) -> Metrics {
        self.metrics
    }

    /// The format of the report.
    pub closed spec fn spec_format(&self) -> OutputFormat {
        self.output_format
    }

    /// The file that the report goes to; standard output where there is none.
    pub closed spec fn spec_output_file(&self) -> Option<String> {
        self.output_file
    }

    /// A report of `metrics`, as JSON on standard output.
    pub fn new(metrics: Metrics) -> (r: Report)
        ensures
            r.spec_metrics() == metrics,
            r.spec_format() == OutputFormat::Json,
            r.spec_output_file() is None,
    {
        Report { metrics, output_format: OutputFormat::Json, output_file: None }
    }

    /// The same report in `format`.
    pub fn with_format(self, format: OutputFormat) -> (r: Report)
        ensures
            r.spec_metrics() == self.spec_metrics(),
            r.spec_format() == format,
            r.spec_output_file() == self.spec_output_file(),
    {
        let mut r = self;
        r.output_format = format;
        r
    }

    /// The same report, written to the file at `file_path`.
    pub fn with_output_file(self, file_path: String) -> (r: Report)
        ensures
            r.spec_metrics() == self.spec_metrics(),
            r.spec_format() == self.spec_format(),
            r.spec_output_file() == Some(file_path),
    {
        let mut r = self;
        r.output_file = Some(file_path);
        r
    }

    /// The record that is reported.
    pub fn metrics(&self) -> (m: &Metrics)
        ensures
            *m == self.spec_metrics(),
    {
        &self.metrics
    }

    /// The format of the report.
    pub fn format(&self) -> (f: OutputFormat)
        ensures
            f == self.spec_format(),
    {
        self.output_format
    }

    /// The file that the report goes to, if any.
    pub fn output_file(&self) -> (f: &Option<String>)
        ensures
            *f == self.spec_output_file(),
    {
        &self.output_file
    }

    /// The name of the band of `score`, in thousandths of a point.
    pub fn get_rating(&self, score: u64) -> (name: &'static str)
        ensures
            name@ == rating_text(rating_of(score)),
    {
        rating_name(rating(score))
    }
}

} // verus!
