//! Direct purchases with their receipts: the request for the list and what
//! the list holds.

use vstd::prelude::*;
use crate::common::chrono::{
    format_pattern, utc_text, DateTime, DateTimeFormat, MAX_TIMESTAMP, SECS_PER_WEEK,
};

verus! {

/// Where the list of direct purchases is served.
pub const RESOURCE_URI: &'static str = "/zeus/apa/";

/// The weeks that a request reaches back where it names no first day.
pub const DEFAULT_WEEKS: u32 = 24;

/// A request for the direct purchases of a span of days.
#[derive(Clone, Debug, Default)]
pub struct Request {
    /// The first day.
    pub date_begin: Option<DateTime>,
    /// The last day.
    pub date_end: Option<DateTime>,
}

/// An application with its products.
#[derive(Clone, Debug)]
pub struct Products {
    /// The number of the application.
    pub id: String,
    /// The day of the application.
    pub date: DateTime,
    /// The title.
    pub title: String,
    /// The products.
    pub products: Vec<Product>,
}

/// A product of a direct purchase.
#[derive(Clone, Debug)]
pub struct Product {
    /// What was applied for.
    pub template: ProductTemplate,
    /// What was paid, once it was bought.
    pub receipt: Option<ProductReceipt>,
}

/// A product as it was applied for.
#[derive(Clone, Debug)]
pub struct ProductTemplate {
    /// The name of the product.
    pub name: String,
    /// Its make or size.
    pub format: String,
    /// How much of it, and in which unit.
    pub amount: ProductAmount,
    /// Whether it is entered as an asset.
    pub is_resource: bool,
}

/// What was paid for a product.
#[derive(Clone, Debug)]
pub struct ProductReceipt {
    /// The price of one unit.
    pub unit_price: u64,
    /// The price without tax.
    pub supply_price: u64,
    /// The tax.
    pub vat: u64,
    /// The sum.
    pub total: u64,
}

/// An amount with its unit.
#[derive(Clone, Debug)]
pub enum ProductAmount {
    /// A number of pieces.
    EA(u32),
}

/// The first and the last day that `request` asks for, as texts, when the
/// clock says `now` and said `earlier` for the default number of weeks ago.
/// The first day of the request stands for both days where it is given.
pub open spec fn span_text(request: Request, earlier: DateTime, now: DateTime) -> (
    Seq<char>,
    Seq<char>,
) {
    let pattern = format_pattern(DateTimeFormat::YYYYMMDD);
    match request.date_begin {
        Some(day) => (
            utc_text(day.secs(), day.nanos(), pattern),
            utc_text(day.secs(), day.nanos(), pattern),
        ),
        None => (
            utc_text(earlier.secs(), earlier.nanos(), pattern),
            utc_text(now.secs(), now.nanos(), pattern),
        ),
    }
}

impl Request {
    /// The first and the last day that the request asks for, as texts, given
    /// what the clock says.
    pub fn span_at(&self, earlier: DateTime, now: DateTime) -> (r: (String, String))
        ensures
            (r.0@, r.1@) == span_text(*self, earlier, now),
    {
        match self.date_begin {
            Some(day) => (day.format(DateTimeFormat::YYYYMMDD), day.format(DateTimeFormat::YYYYMMDD)),
            None => (
                earlier.format(DateTimeFormat::YYYYMMDD),
                now.format(DateTimeFormat::YYYYMMDD),
            ),
        }
    }

    /// The first and the last day that the request asks for, as texts. Where
    /// the request names no first day, the clock is read: the span then
    /// reaches from the default number of weeks ago to now.
    pub fn span(&self) -> (r: (String, String))
        ensures
            exists|earlier: DateTime, now: DateTime|
                {
                    &&& 0 <= earlier.secs() + SECS_PER_WEEK * DEFAULT_WEEKS <= MAX_TIMESTAMP
                    &&& 0 <= now.secs() <= MAX_TIMESTAMP
                    &&& (r.0@, r.1@) == #[trigger] span_text(*self, earlier, now)
                },
    {
        let earlier = DateTime::weeks_ago(DEFAULT_WEEKS);
        let now = DateTime::now();
        let r = self.span_at(earlier, now);
        r
    }
}

} // verus!
