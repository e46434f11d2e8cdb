//! What a user asks for, brought into the words of catalog titles.

use crate::chart_type::{keyword_type, ChartType};
use crate::names::{expanded_name, normalize_chart_name};
use crate::text::{trim, uppercase};
use vstd::prelude::*;

verus! {

/// A request for a chart, normalized once and never changed after.
#[derive(Debug, PartialEq, Eq)]
pub struct ChartQuery {
    /// The code of the airport asked about, in upper case.
    pub airport: String,
    /// The chart asked for, in the words of catalog titles.
    pub chart_name: String,
    /// The category that those words stand for.
    pub chart_type: ChartType,
}

/// What a [`ChartQuery`] holds.
pub struct QueryView {
    pub airport: Seq<char>,
    pub chart_name: Seq<char>,
    pub chart_type: ChartType,
}

impl View for ChartQuery {
    type V = QueryView;

    open spec fn view(&self) -> QueryView {
        QueryView {
            airport: self.airport@,
            chart_name: self.chart_name@,
            chart_type: self.chart_type,
        }
    }
}

impl Clone for ChartQuery {
    fn clone(&self) -> (r: Self)
        ensures
            r@ == self@,
    {
        ChartQuery {
            airport: self.airport.clone(),
            chart_name: self.chart_name.clone(),
            chart_type: self.chart_type,
        }
    }
}

/// The request that an airport's code and a free text make.
pub open spec fn query_for(airport: Seq<char>, text: Seq<char>) -> QueryView {
    let name = expanded_name(uppercase(trim(text)), Some(uppercase(airport)));
    QueryView { airport: uppercase(airport), chart_name: name, chart_type: keyword_type(uppercase(name)) }
}

impl ChartQuery {
    /// Normalizes what the user typed and tells the category asked for from
    /// the key words of the normalized text.
    pub fn new(airport: &str, chart_name: &str) -> (q: ChartQuery)
        ensures
            q@ == query_for(airport@, chart_name@),
    {
        let name = normalize_chart_name(chart_name, Some(airport));
        let chart_type = ChartType::infer(name.as_str());
        ChartQuery { airport: airport.to_uppercase(), chart_name: name, chart_type }
    }
}

} // verus!
