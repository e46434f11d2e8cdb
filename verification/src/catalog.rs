//! The records of a chart catalog, and what they are in specifications.

use crate::chart_type::{code_type, keyword_type, ChartType};
use crate::text::uppercase;
use vstd::prelude::*;

verus! {

/// One chart of a catalog, as the chart service lists it.
#[derive(Debug, PartialEq, Eq)]
pub struct ChartInfo {
    /// The title under which the chart is listed.
    pub chart_name: String,
    /// The category code; empty where the service gave none.
    pub chart_code: String,
    /// Where the document lies, as the service wrote it.
    pub pdf_path: String,
    /// The airport's FAA identifier.
    pub faa_ident: String,
    /// The airport's ICAO identifier.
    pub icao_ident: String,
}

/// What a [`ChartInfo`] holds.
pub struct ChartRecord {
    pub chart_name: Seq<char>,
    pub chart_code: Seq<char>,
    pub pdf_path: Seq<char>,
    pub faa_ident: Seq<char>,
    pub icao_ident: Seq<char>,
}

impl View for ChartInfo {
    type V = ChartRecord;

    open spec fn view(&self) -> ChartRecord {
        ChartRecord {
            chart_name: self.chart_name@,
            chart_code: self.chart_code@,
            pdf_path: self.pdf_path@,
            faa_ident: self.faa_ident@,
            icao_ident: self.icao_ident@,
        }
    }
}

impl Clone for ChartInfo {
    fn clone(&self) -> (r: Self)
        ensures
            r@ == self@,
    {
        ChartInfo {
            chart_name: self.chart_name.clone(),
            chart_code: self.chart_code.clone(),
            pdf_path: self.pdf_path.clone(),
            faa_ident: self.faa_ident.clone(),
            icao_ident: self.icao_ident.clone(),
        }
    }
}

/// What each record of a catalog holds, in the catalog's order.
pub open spec fn records(charts: Seq<ChartInfo>) -> Seq<ChartRecord> {
    charts.map_values(|c: ChartInfo| c@)
}

/// The category of a record: that of its code where it has one, that of the
/// key words in its title where it has none.
pub open spec fn record_type(r: ChartRecord) -> ChartType {
    if r.chart_code.len() == 0 {
        keyword_type(uppercase(r.chart_name))
    } else {
        code_type(uppercase(r.chart_code))
    }
}

impl ChartInfo {
    /// The category of this chart: its code decides where it has one, the key
    /// words of its title where it has none.
    pub fn chart_type(&self) -> (t: ChartType)
        ensures
            t == record_type(self@),
    {
        if self.chart_code.as_str().is_empty() {
            ChartType::infer(self.chart_name.as_str())
        } else {
            ChartType::from_code(self.chart_code.as_str())
        }
    }
}

} // verus!
