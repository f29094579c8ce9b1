//! A report: a stream of items and the formatter that renders it.

use crate::formatter::{views, Item, ItemTypeVec, ReportFormatter};
use vstd::prelude::*;

verus! {

pub struct HouseReport<F: ReportFormatter> {
    report: ItemTypeVec,
    fmt: Box<F>,
}

impl<F: ReportFormatter> HouseReport<F> {
    /// The items of the report.
    pub closed spec fn items(&self) -> Seq<Item> {
        views(self.report@)
    }

    /// The formatter of the report.
    pub closed spec fn formatter(&self) -> F {
        *self.fmt
    }

    pub fn new(report: ItemTypeVec, fmt: Box<F>) -> (r: Self)
        ensures
            r.items() == views(report@),
            r.formatter() == *fmt,
    {
        Self { report, fmt }
    }

    /// The report as its formatter renders it.
    pub fn summary(&self) -> (text: String)
        ensures
            text@ == self.formatter().rendering(self.items()),
    {
        self.fmt.format(&self.report)
    }
}

} // verus!
