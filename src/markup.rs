use vstd::prelude::*;
use chrono::{Datelike, Timelike};
use crate::comic::Timestamp;

verus! {

/// For each element of `markup` that `selector` matches, in the order in which the parsed
/// tree holds its nodes: its decoded text and the value of its attribute `attr`; `None`
/// when `selector` is not a valid selector.
pub uninterp spec fn selected(markup: Seq<char>, selector: Seq<char>, attr: Seq<char>) -> Option<
    Seq<(Seq<char>, Option<Seq<char>>)>,
>;

/// The timestamp that `text` denotes under the strftime-style `format`, if it matches.
pub uninterp spec fn parsed_timestamp(text: Seq<char>, format: Seq<char>) -> Option<Timestamp>;

pub open spec fn opt_view(o: Option<String>) -> Option<Seq<char>> {
    match o {
        Some(s) => Some(s@),
        None => None,
    }
}

pub open spec fn match_view(m: (String, Option<String>)) -> (Seq<char>, Option<Seq<char>>) {
    (m.0@, opt_view(m.1))
}

pub open spec fn matches_view(v: Seq<(String, Option<String>)>) -> Seq<
    (Seq<char>, Option<Seq<char>>),
> {
    v.map_values(|m: (String, Option<String>)| match_view(m))
}

/// Relies on `scraper::Selector::parse`, `scraper::Html::parse_document`, `Html::select`,
/// `ElementRef::text` and `Element::attr`: parsing is a function of the text alone, and
/// matches come in the order in which the parsed tree holds its nodes.
#[verifier::external_body]
pub(crate) fn select(markup: &str, selector: &str, attr: &str) -> (r: Option<
    Vec<(String, Option<String>)>,
>)
    ensures
        r matches Some(v) ==> selected(markup@, selector@, attr@) == Some(matches_view(v@)),
        r is None ==> selected(markup@, selector@, attr@) is None,
{
    let sel = match scraper::Selector::parse(selector) {
        Ok(sel) => sel,
        Err(_) => return None,
    };
    let doc = scraper::Html::parse_document(markup);
    let mut out = Vec::new();
    for e in doc.select(&sel) {
        let text: String = e.text().collect();
        out.push((text, e.value().attr(attr).map(|a| a.to_owned())));
    }
    Some(out)
}

/// Relies on `chrono::NaiveDateTime::parse_from_str`, whose result depends on its two
/// arguments alone; a parsed value has its fields in their calendar ranges.
#[verifier::external_body]
pub(crate) fn parse_timestamp(text: &str, format: &str) -> (r: Option<Timestamp>)
    ensures
        r == parsed_timestamp(text@, format@),
        r matches Some(t) ==> t.wf(),
{
    match chrono::NaiveDateTime::parse_from_str(text, format) {
        Ok(d) => Some(
            Timestamp {
                year: d.year(),
                month: d.month(),
                day: d.day(),
                hour: d.hour(),
                minute: d.minute(),
                second: d.second(),
            },
        ),
        Err(_) => None,
    }
}

} // verus!
