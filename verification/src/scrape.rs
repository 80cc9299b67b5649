//! Reading result pages of the HTML indexers: the calls into the `scraper`
//! crate, which finds elements by CSS selector, and what the 1337x and
//! Rutracker result rows are made of.

use vstd::prelude::*;
use scraper::{ElementRef, Html, Selector};
use crate::number::{parse_u32, parse_u32_spec};
use crate::providers::{extract_topic_id, topic_id_of};
use crate::text::{append_chars, chars_of, string_of, trim_whitespace, trim_ws};

verus! {

/// What a CSS selector finds first in an element: the element's text and
/// its `href` attribute.
pub type CellView = Option<(Seq<char>, Option<Seq<char>>)>;

/// The rows that `row_selector` finds in the HTML document `html`, each
/// given by what the four cell selectors find first in it; `None` when a
/// selector is not valid CSS.
pub uninterp spec fn scraped_rows(
    html: Seq<char>,
    row_selector: Seq<char>,
    cells: (Seq<char>, Seq<char>, Seq<char>, Seq<char>),
) -> Option<Seq<(CellView, CellView, CellView, CellView)>>;

/// The `href` of the first element of `html` that `selector` finds, if
/// there is one and it has the attribute; `None` also when the selector is
/// not valid CSS.
pub uninterp spec fn first_href_of(html: Seq<char>, selector: Seq<char>) -> Option<Seq<char>>;

/// Whether `Selector::parse` accepts a selector.
pub uninterp spec fn selector_valid(selector: Seq<char>) -> bool;

/// The `scraper` crate's `Html::parse_document`, `Selector::parse`,
/// `Html::select` and, in each row found, `ElementRef::select` with each
/// cell selector, the first match's `text()` joined and its `attr("href")`.
/// The contract names the result: how HTML is parsed and selectors match
/// takes pages.
#[verifier::external_body]
pub(crate) fn scrape_rows(html: &str, row_selector: &str, c0: &str, c1: &str, c2: &str, c3: &str) -> (r: Option<
    Vec<(
        Option<(String, Option<String>)>,
        Option<(String, Option<String>)>,
        Option<(String, Option<String>)>,
        Option<(String, Option<String>)>,
    )>,
>)
    ensures
        r.deep_view() == scraped_rows(html@, row_selector@, (c0@, c1@, c2@, c3@)),
{
    let doc = Html::parse_document(html);
    let p = |s: &str| Selector::parse(s).ok();
    let (row, s0, s1, s2, s3) = (p(row_selector)?, p(c0)?, p(c1)?, p(c2)?, p(c3)?);
    let f = |r: &ElementRef, s: &Selector| {
        r.select(s).next().map(|e| (e.text().collect(), e.attr("href").map(String::from)))
    };
    Some(doc.select(&row).map(|r| (f(&r, &s0), f(&r, &s1), f(&r, &s2), f(&r, &s3))).collect())
}

/// The `scraper` crate's `Html::parse_document`, `Selector::parse`,
/// `Html::select`, and the first match's `attr("href")`. The contract names
/// the result.
#[verifier::external_body]
pub(crate) fn first_href(html: &str, selector: &str) -> (r: Option<String>)
    ensures
        r.deep_view() == first_href_of(html@, selector@),
{
    let doc = Html::parse_document(html);
    let sel = Selector::parse(selector).ok()?;
    doc.select(&sel).next().and_then(|e| e.attr("href")).map(String::from)
}

/// The `scraper` crate's `Selector::parse(..).is_ok()`. The contract names
/// the result.
#[verifier::external_body]
pub(crate) fn selector_parses(selector: &str) -> (r: bool)
    ensures
        r == selector_valid(selector@),
{
    Selector::parse(selector).is_ok()
}

// ---------------------------------------------------------------------------
// Cells
// ---------------------------------------------------------------------------

/// A count cell: its trimmed text read as a number, 0 when it is missing or
/// unreadable.
pub open spec fn count_of(cell: CellView) -> u32 {
    match cell {
        Some((text, _)) => match parse_u32_spec(trim_ws(text)) {
            Some(n) => n,
            None => 0,
        },
        None => 0,
    }
}

/// A text cell: its text, empty when missing.
pub open spec fn text_of(cell: CellView) -> Seq<char> {
    match cell {
        Some((text, _)) => text,
        None => Seq::empty(),
    }
}

fn cell_count(cell: &Option<(String, Option<String>)>) -> (r: u32)
    ensures
        r == count_of(cell.deep_view()),
{
    match cell {
        Some((text, _)) => {
            let t = trim_whitespace(chars_of(text.as_str()).as_slice());
            match parse_u32(t.as_slice()) {
                Some(n) => n,
                None => 0,
            }
        },
        None => 0,
    }
}

fn cell_text(cell: &Option<(String, Option<String>)>) -> (r: String)
    ensures
        r@ == text_of(cell.deep_view()),
{
    match cell {
        Some((text, _)) => text.clone(),
        None => String::new(),
    }
}

// ---------------------------------------------------------------------------
// 1337x
// ---------------------------------------------------------------------------

/// Result rows of a 1337x search page.
pub const LEETX_ROW: &'static str = "table.table-list tbody tr";
/// The name link of a 1337x row (the second link of its first cell).
pub const LEETX_NAME: &'static str = "td.coll-1 a:nth-child(2)";
/// The seeders cell of a 1337x row.
pub const LEETX_SEEDS: &'static str = "td.coll-2";
/// The leechers cell of a 1337x row.
pub const LEETX_LEECHERS: &'static str = "td.coll-3";
/// The size cell of a 1337x row.
pub const LEETX_SIZE: &'static str = "td.coll-4";
/// The magnet link of a 1337x detail page.
pub const MAGNET_LINK: &'static str = "a[href^='magnet:']";

/// A 1337x search result, before its size is read and its magnet fetched.
pub struct LeetxRow {
    pub title: String,
    /// The detail page, where the magnet link is.
    pub detail_url: String,
    pub seeders: u32,
    pub leechers: u32,
    /// The size as the page shows it, such as `1.5 GB`.
    pub size_text: String,
}

/// The result a 1337x row gives: one with a non-blank name and a detail
/// link; its title trimmed, its link made absolute.
pub open spec fn leetx_row_of(
    row: (CellView, CellView, CellView, CellView),
    base_url: Seq<char>,
) -> Option<(Seq<char>, Seq<char>, u32, u32, Seq<char>)> {
    match row.0 {
        Some((text, href)) => {
            let title = trim_ws(text);
            let detail = match href {
                Some(h) => h,
                None => Seq::empty(),
            };
            if title.len() > 0 && detail.len() > 0 {
                Some((title, base_url + detail, count_of(row.1), count_of(row.2), text_of(row.3)))
            } else {
                None
            }
        },
        None => None,
    }
}

/// The results of the rows of a 1337x page, in order.
pub open spec fn leetx_rows_of(
    rows: Seq<(CellView, CellView, CellView, CellView)>,
    base_url: Seq<char>,
) -> Seq<(Seq<char>, Seq<char>, u32, u32, Seq<char>)>
    decreases rows.len(),
{
    if rows.len() == 0 {
        Seq::empty()
    } else {
        let rest = leetx_rows_of(rows.drop_last(), base_url);
        match leetx_row_of(rows.last(), base_url) {
            Some(x) => rest.push(x),
            None => rest,
        }
    }
}

/// The view of a 1337x result.
pub open spec fn leetx_row_view(r: LeetxRow) -> (Seq<char>, Seq<char>, u32, u32, Seq<char>) {
    (r.title@, r.detail_url@, r.seeders, r.leechers, r.size_text@)
}

/// The results listed on a 1337x search page, with detail links under
/// `base_url`. A page the selectors cannot read gives no results.
pub fn leetx_search_rows(html: &str, base_url: &str) -> (r: Vec<LeetxRow>)
    ensures
        match scraped_rows(html@, LEETX_ROW@, (LEETX_NAME@, LEETX_SEEDS@, LEETX_LEECHERS@, LEETX_SIZE@)) {
            Some(rows) => r@.map_values(|x: LeetxRow| leetx_row_view(x)) == leetx_rows_of(rows, base_url@),
            None => r@.len() == 0,
        },
{
    let rows = match scrape_rows(html, LEETX_ROW, LEETX_NAME, LEETX_SEEDS, LEETX_LEECHERS, LEETX_SIZE) {
        Some(rows) => rows,
        None => return Vec::new(),
    };
    let ghost rv = rows.deep_view();
    let mut out: Vec<LeetxRow> = Vec::new();
    let mut i: usize = 0;
    while i < rows.len()
        invariant
            rv == rows.deep_view(),
            i <= rows.len(),
            out@.map_values(|x: LeetxRow| leetx_row_view(x)) == leetx_rows_of(rv.take(i as int), base_url@),
        decreases rows.len() - i,
    {
        assert(rv.take(i + 1).drop_last() =~= rv.take(i as int));
        assert(rv.take(i + 1).last() == rows@[i as int].deep_view());
        let row = &rows[i];
        match &row.0 {
            Some((text, href)) => {
                let title = string_of(trim_whitespace(chars_of(text.as_str()).as_slice()).as_slice());
                let detail = match href {
                    Some(h) => h.clone(),
                    None => String::new(),
                };
                if title.as_str().unicode_len() > 0 && detail.as_str().unicode_len() > 0 {
                    let mut url = chars_of(base_url);
                    append_chars(&mut url, chars_of(detail.as_str()).as_slice());
                    let x = LeetxRow {
                        title,
                        detail_url: string_of(url.as_slice()),
                        seeders: cell_count(&row.1),
                        leechers: cell_count(&row.2),
                        size_text: cell_text(&row.3),
                    };
                    let ghost before = out@;
                    out.push(x);
                    assert(out@.map_values(|x: LeetxRow| leetx_row_view(x)) =~= before.map_values(
                        |x: LeetxRow| leetx_row_view(x),
                    ).push(leetx_row_view(x)));
                }
            },
            None => {},
        }
        i += 1;
    }
    assert(rv.take(rows.len() as int) =~= rv);
    out
}

/// The magnet link of a 1337x detail page: the `href` of its first link
/// to a magnet.
pub fn magnet_link(html: &str) -> (r: Option<String>)
    ensures
        r.deep_view() == first_href_of(html@, MAGNET_LINK@),
{
    first_href(html, MAGNET_LINK)
}

// ---------------------------------------------------------------------------
// Rutracker
// ---------------------------------------------------------------------------

/// Result rows of a Rutracker search page, and the selector used when that
/// one is refused.
pub const RUTRACKER_ROW: &'static str = "table#tor-tbl tbody tr";
pub const RUTRACKER_ROW_FALLBACK: &'static str = "tr.tCenter";
/// The topic link of a Rutracker row, and its fallback.
pub const RUTRACKER_TITLE: &'static str = "td.t-title-col a.tLink";
pub const RUTRACKER_TITLE_FALLBACK: &'static str = "a.tLink";
/// The size cell of a Rutracker row, and its fallback.
pub const RUTRACKER_SIZE: &'static str = "td.tor-size";
pub const RUTRACKER_SIZE_FALLBACK: &'static str = "a.tr-dl";
/// The seeders cell of a Rutracker row.
pub const RUTRACKER_SEEDS: &'static str = "td.seedmed, td b.seedmed";
/// The leechers cell of a Rutracker row.
pub const RUTRACKER_LEECHERS: &'static str = "td.leechmed, td b.leechmed";

/// A selector, or its fallback when the selector is refused.
pub open spec fn selector_or(selector: Seq<char>, fallback: Seq<char>) -> Seq<char> {
    if selector_valid(selector) {
        selector
    } else {
        fallback
    }
}

fn choose_selector(selector: &'static str, fallback: &'static str) -> (r: &'static str)
    ensures
        r@ == selector_or(selector@, fallback@),
{
    if selector_parses(selector) {
        selector
    } else {
        fallback
    }
}

/// A Rutracker search result, before its size is read.
pub struct RutrackerRow {
    pub title: String,
    pub topic_id: String,
    pub seeders: u32,
    pub leechers: u32,
    /// The size as the page shows it, such as `1,5 ГБ`.
    pub size_text: String,
}

/// The result a Rutracker row gives: one whose topic link has a topic
/// number and a non-blank title; its title trimmed. The cells are the
/// title link, the size, the seeders and the leechers.
pub open spec fn rutracker_row_of(row: (CellView, CellView, CellView, CellView)) -> Option<
    (Seq<char>, Seq<char>, u32, u32, Seq<char>),
> {
    match row.0 {
        Some((text, href)) => {
            let title = trim_ws(text);
            let link = match href {
                Some(h) => h,
                None => Seq::empty(),
            };
            match topic_id_of(link) {
                Some(id) => if title.len() > 0 {
                    Some((title, id, count_of(row.2), count_of(row.3), text_of(row.1)))
                } else {
                    None
                },
                None => None,
            }
        },
        None => None,
    }
}

/// The results of the rows of a Rutracker page, in order.
pub open spec fn rutracker_rows_of(rows: Seq<(CellView, CellView, CellView, CellView)>) -> Seq<
    (Seq<char>, Seq<char>, u32, u32, Seq<char>),
>
    decreases rows.len(),
{
    if rows.len() == 0 {
        Seq::empty()
    } else {
        let rest = rutracker_rows_of(rows.drop_last());
        match rutracker_row_of(rows.last()) {
            Some(x) => rest.push(x),
            None => rest,
        }
    }
}

/// The view of a Rutracker result.
pub open spec fn rutracker_row_view(r: RutrackerRow) -> (Seq<char>, Seq<char>, u32, u32, Seq<char>) {
    (r.title@, r.topic_id@, r.seeders, r.leechers, r.size_text@)
}

/// The rows a Rutracker page is read with: the chosen selectors.
pub open spec fn rutracker_scraped(html: Seq<char>) -> Option<Seq<(CellView, CellView, CellView, CellView)>> {
    scraped_rows(
        html,
        selector_or(RUTRACKER_ROW@, RUTRACKER_ROW_FALLBACK@),
        (
            selector_or(RUTRACKER_TITLE@, RUTRACKER_TITLE_FALLBACK@),
            selector_or(RUTRACKER_SIZE@, RUTRACKER_SIZE_FALLBACK@),
            RUTRACKER_SEEDS@,
            RUTRACKER_LEECHERS@,
        ),
    )
}

/// The results listed on a Rutracker search page. A page the selectors
/// cannot read gives no results.
pub fn rutracker_search_rows(html: &str) -> (r: Vec<RutrackerRow>)
    ensures
        match rutracker_scraped(html@) {
            Some(rows) => r@.map_values(|x: RutrackerRow| rutracker_row_view(x)) == rutracker_rows_of(rows),
            None => r@.len() == 0,
        },
{
    let row_sel = choose_selector(RUTRACKER_ROW, RUTRACKER_ROW_FALLBACK);
    let title_sel = choose_selector(RUTRACKER_TITLE, RUTRACKER_TITLE_FALLBACK);
    let size_sel = choose_selector(RUTRACKER_SIZE, RUTRACKER_SIZE_FALLBACK);
    let rows = match scrape_rows(html, row_sel, title_sel, size_sel, RUTRACKER_SEEDS, RUTRACKER_LEECHERS) {
        Some(rows) => rows,
        None => return Vec::new(),
    };
    let ghost rv = rows.deep_view();
    let mut out: Vec<RutrackerRow> = Vec::new();
    let mut i: usize = 0;
    while i < rows.len()
        invariant
            rv == rows.deep_view(),
            i <= rows.len(),
            out@.map_values(|x: RutrackerRow| rutracker_row_view(x)) == rutracker_rows_of(rv.take(i as int)),
        decreases rows.len() - i,
    {
        assert(rv.take(i + 1).drop_last() =~= rv.take(i as int));
        assert(rv.take(i + 1).last() == rows@[i as int].deep_view());
        let row = &rows[i];
        match &row.0 {
            Some((text, href)) => {
                let title = string_of(trim_whitespace(chars_of(text.as_str()).as_slice()).as_slice());
                let link = match href {
                    Some(h) => h.clone(),
                    None => String::new(),
                };
                match extract_topic_id(link.as_str()) {
                    Some(id) => {
                        if title.as_str().unicode_len() > 0 {
                            let x = RutrackerRow {
                                title,
                                topic_id: id,
                                seeders: cell_count(&row.2),
                                leechers: cell_count(&row.3),
                                size_text: cell_text(&row.1),
                            };
                            let ghost before = out@;
                            out.push(x);
                            assert(out@.map_values(|x: RutrackerRow| rutracker_row_view(x))
                                =~= before.map_values(|x: RutrackerRow| rutracker_row_view(x)).push(
                                rutracker_row_view(x),
                            ));
                        }
                    },
                    None => {},
                }
            },
            None => {},
        }
        i += 1;
    }
    assert(rv.take(rows.len() as int) =~= rv);
    out
}

} // verus!
