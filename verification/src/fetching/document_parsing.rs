//! Reading the seatings, the votings and the votes of the parties from the
//! parliament's pages.

use vstd::prelude::*;
use crate::domain::data::{
    Party, PartyVote, SeatingHeader, Vote, VotingHeader, VotingResult, from_votes_spec,
    party_votes_view,
};
use crate::error::PopisError;
use crate::fetching::data::{LoadableSeatingHeader, LoadableVoting, url_parse_succeeds};
use crate::fetching::html::{
    Document, Element, Path, Sel, attr_at, document_match_count, element_match_count,
    first_text_at, inner_html_at, selector, selector_parses,
};
use crate::fetching::tools::{
    date_fields_spec, date_text_is_safe, date_text_safe, link_of, map_date, parse_err,
    url_from_link,
};
use crate::text::{chars_of, parse_i32, parse_i32_spec, parse_u32, parse_u32_spec};

verus! {

/// The block of the main page that holds the table of seatings.
pub const MAIN_PAGE_DIV_WITH_TABLE: &'static str = "div#contentBody";

/// The body of that table.
pub const MAIN_PAGE_TABLE_CONTENT: &'static str = "tbody";

// ---------------------------------------------------------------- selectors

/// The compiled selectors that the pages are read with.
pub struct Selectors {
    pub div_with_table: Sel,
    pub table_content: Sel,
    pub tr: Sel,
    pub td: Sel,
    pub a: Sel,
    pub strong: Sel,
    pub main: Sel,
    pub content_body: Sel,
    pub kluby: Sel,
}

/// Whether every selector that the pages are read with compiles.
pub open spec fn all_selectors_parse() -> bool {
    &&& selector_parses(MAIN_PAGE_DIV_WITH_TABLE@)
    &&& selector_parses(MAIN_PAGE_TABLE_CONTENT@)
    &&& selector_parses("tr"@)
    &&& selector_parses("td"@)
    &&& selector_parses("a"@)
    &&& selector_parses("strong"@)
    &&& selector_parses("#main"@)
    &&& selector_parses("#contentBody"@)
    &&& selector_parses("table.kluby"@)
}

impl Selectors {
    /// Each selector is the compiled form of its text.
    pub open spec fn wf(&self) -> bool {
        &&& self.div_with_table@ == MAIN_PAGE_DIV_WITH_TABLE@
        &&& self.table_content@ == MAIN_PAGE_TABLE_CONTENT@
        &&& self.tr@ == "tr"@
        &&& self.td@ == "td"@
        &&& self.a@ == "a"@
        &&& self.strong@ == "strong"@
        &&& self.main@ == "#main"@
        &&& self.content_body@ == "#contentBody"@
        &&& self.kluby@ == "table.kluby"@
    }

    /// Compiles the selectors; `None` if one of them does not compile.
    pub fn new() -> (r: Option<Selectors>)
        ensures
            r is Some <==> all_selectors_parse(),
            r matches Some(s) ==> s.wf(),
    {
        let div_with_table = selector(MAIN_PAGE_DIV_WITH_TABLE);
        let table_content = selector(MAIN_PAGE_TABLE_CONTENT);
        let tr = selector("tr");
        let td = selector("td");
        let a = selector("a");
        let strong = selector("strong");
        let main = selector("#main");
        let content_body = selector("#contentBody");
        let kluby = selector("table.kluby");
        match (div_with_table, table_content, tr, td, a, strong, main, content_body, kluby) {
            (
                Some(div_with_table),
                Some(table_content),
                Some(tr),
                Some(td),
                Some(a),
                Some(strong),
                Some(main),
                Some(content_body),
                Some(kluby),
            ) => Some(
                Selectors {
                    div_with_table,
                    table_content,
                    tr,
                    td,
                    a,
                    strong,
                    main,
                    content_body,
                    kluby,
                },
            ),
            _ => None,
        }
    }
}

// ---------------------------------------------------------------- cells of a row

/// The path of the `i`-th match of `sel` below `p`.
pub open spec fn nth(p: Path, sel: Seq<char>, i: nat) -> Path {
    p.push((sel, i))
}

/// Whether the element at `p` has a descendant matching `sel`.
pub open spec fn has(h: Seq<char>, p: Path, sel: Seq<char>) -> bool {
    element_match_count(h, p, sel) > 0
}

/// The link inside the element at `p`: its `href` and its inner HTML.
pub open spec fn link_in(h: Seq<char>, p: Path) -> Option<(Option<Seq<char>>, Seq<char>)> {
    if has(h, p, "a"@) {
        let l = nth(p, "a"@, 0);
        Some((attr_at(h, l, "href"@), inner_html_at(h, l)))
    } else {
        None
    }
}

/// The inner HTML of the `strong` inside the link inside the element at `p`.
pub open spec fn strong_in_link(h: Seq<char>, p: Path) -> Option<Seq<char>> {
    if has(h, p, "a"@) && has(h, nth(p, "a"@, 0), "strong"@) {
        Some(inner_html_at(h, nth(nth(p, "a"@, 0), "strong"@, 0)))
    } else {
        None
    }
}

/// The `k`-th cell of the row at `p`, when the row has one.
pub open spec fn has_cell(h: Seq<char>, p: Path, k: nat) -> bool {
    element_match_count(h, p, "td"@) > k
}

fn link_cells(e: &Element, sels: &Selectors) -> (r: Option<(Option<String>, String)>)
    requires
        sels.wf(),
    ensures
        match link_in(e@.0, e@.1) {
            Some((href, html)) => r matches Some((rh, rt)) && rt@ == html && match href {
                Some(v) => rh matches Some(s) && s@ == v,
                None => rh is None,
            },
            None => r is None,
        },
{
    match e.child(&sels.a) {
        Some(l) => Some((l.attr("href"), l.inner_html())),
        None => None,
    }
}

fn strong_cell(e: &Element, sels: &Selectors) -> (r: Option<String>)
    requires
        sels.wf(),
    ensures
        match strong_in_link(e@.0, e@.1) {
            Some(v) => r matches Some(s) && s@ == v,
            None => r is None,
        },
{
    match e.child(&sels.a) {
        Some(l) => match l.child(&sels.strong) {
            Some(s) => Some(s.inner_html()),
            None => None,
        },
        None => None,
    }
}

/// An optional string as an optional character sequence.
pub open spec fn opt_view(o: Option<String>) -> Option<Seq<char>> {
    match o {
        Some(s) => Some(s@),
        None => None,
    }
}

// ---------------------------------------------------------------- seating list

/// A seating header to be loaded, as (number, (year, month, day), address).
pub open spec fn loadable_seating_view(s: LoadableSeatingHeader) -> (i32, (i32, u32, u32), Seq<char>) {
    (s.header.identifier, s.header.date@, s.votings_url.0@)
}

/// The seating that a row of the seating list describes, from the inner HTML of its
/// first cell (the number) and the link of its second cell (address and date).
pub open spec fn seating_row_spec(
    number_html: Option<Seq<char>>,
    link: Option<(Option<Seq<char>>, Seq<char>)>,
) -> Option<(i32, (i32, u32, u32), Seq<char>)> {
    match number_html {
        None => None,
        Some(nh) => match parse_i32_spec(nh) {
            None => None,
            Some(number) => match link {
                None => None,
                Some((href, html)) => match href {
                    None => None,
                    Some(hr) => if !url_parse_succeeds(link_of(hr)) {
                        None
                    } else {
                        match date_fields_spec(html) {
                            None => None,
                            Some(date) => Some((number, date, link_of(hr))),
                        }
                    },
                },
            },
        },
    }
}

/// Reading the row gets as far as its date only when the date exists.
pub open spec fn seating_row_safe(
    number_html: Option<Seq<char>>,
    link: Option<(Option<Seq<char>>, Seq<char>)>,
) -> bool {
    match (number_html, link) {
        (Some(nh), Some((Some(hr), html))) => parse_i32_spec(nh) is Some && url_parse_succeeds(
            link_of(hr),
        ) ==> date_text_safe(html),
        _ => true,
    }
}

/// The number cell and the link cell of the row at `p` of the seating list.
pub open spec fn seating_row_cells(h: Seq<char>, p: Path) -> (
    Option<Seq<char>>,
    Option<(Option<Seq<char>>, Seq<char>)>,
) {
    let number_html = if has_cell(h, p, 0) {
        Some(inner_html_at(h, nth(p, "td"@, 0)))
    } else {
        None
    };
    let link = if has_cell(h, p, 1) {
        link_in(h, nth(p, "td"@, 1))
    } else {
        None
    };
    (number_html, link)
}

/// The seating that the row at `p` of the seating list describes.
pub open spec fn main_row_spec(h: Seq<char>, p: Path) -> Option<(i32, (i32, u32, u32), Seq<char>)> {
    let (n, l) = seating_row_cells(h, p);
    seating_row_spec(n, l)
}

/// Reading the row at `p` reaches no date that does not exist.
pub open spec fn main_row_safe(h: Seq<char>, p: Path) -> bool {
    let (n, l) = seating_row_cells(h, p);
    seating_row_safe(n, l)
}

/// The seating that a row of the seating list describes, from the inner HTML of its
/// number cell and the `href` and inner HTML of the link in its date cell.
pub fn seating_header_from_cells(number_html: Option<String>, link: Option<(Option<String>, String)>) -> (r:
    Option<LoadableSeatingHeader>)
    requires
        seating_row_safe(opt_view(number_html), link_opt_view(link)),
    ensures
        match seating_row_spec(opt_view(number_html), link_opt_view(link)) {
            Some(v) => r matches Some(s) && loadable_seating_view(s) == v,
            None => r is None,
        },
{
    let nh = match number_html {
        Some(nh) => nh,
        None => {
            return None;
        },
    };
    let number_chars = chars_of(nh.as_str());
    let number = match parse_i32(number_chars.as_slice()) {
        Some(n) => n,
        None => {
            return None;
        },
    };
    let (href, html) = match link {
        Some(l) => l,
        None => {
            return None;
        },
    };
    let href = match href {
        Some(h) => h,
        None => {
            return None;
        },
    };
    let url = match url_from_link(href.as_str()) {
        Some(u) => u,
        None => {
            return None;
        },
    };
    let date = match map_date(html.as_str()) {
        Some(d) => d,
        None => {
            return None;
        },
    };
    Some(LoadableSeatingHeader::new(SeatingHeader::new(number, date), url))
}

/// A link cell as optional character sequences.
pub open spec fn link_opt_view(l: Option<(Option<String>, String)>) -> Option<(Option<Seq<char>>, Seq<char>)> {
    match l {
        Some((h, t)) => Some((opt_view(h), t@)),
        None => None,
    }
}

fn seating_row_cells_of(row: &Element, sels: &Selectors) -> (r: (Option<String>, Option<(Option<String>, String)>))
    requires
        sels.wf(),
    ensures
        (opt_view(r.0), link_opt_view(r.1)) == seating_row_cells(row@.0, row@.1),
{
    let cells = row.select(&sels.td);
    let number_html = if cells.len() > 0 {
        Some(cells[0].inner_html())
    } else {
        None
    };
    let link = if cells.len() > 1 {
        link_cells(&cells[1], sels)
    } else {
        None
    };
    proof {
        if cells@.len() > 1 {
            let l = link_in(row@.0, nth(row@.1, "td"@, 1));
            assert(link_opt_view(link) == l);
        }
    }
    (number_html, link)
}

/// The seating that a row of the seating list describes, if the row has that shape.
pub fn parse_main_row(row: &Element, sels: &Selectors) -> (r: Option<LoadableSeatingHeader>)
    requires
        sels.wf(),
        main_row_safe(row@.0, row@.1),
    ensures
        match main_row_spec(row@.0, row@.1) {
            Some(v) => r matches Some(s) && loadable_seating_view(s) == v,
            None => r is None,
        },
{
    let (number_html, link) = seating_row_cells_of(row, sels);
    seating_header_from_cells(number_html, link)
}


/// Whether reading a row with these cells reaches no date that does not exist.
pub fn seating_row_is_safe(number_html: &Option<String>, link: &Option<(Option<String>, String)>) -> (r: bool)
    ensures
        r == seating_row_safe(opt_view(*number_html), link_opt_view(*link)),
{
    match (number_html, link) {
        (Some(nh), Some((Some(hr), html))) => {
            let number_chars = chars_of(nh.as_str());
            if parse_i32(number_chars.as_slice()).is_none() {
                return true;
            }
            if url_from_link(hr.as_str()).is_none() {
                return true;
            }
            date_text_is_safe(html.as_str())
        },
        _ => true,
    }
}

/// The seatings of the rows at positions `0..n` below `q` that have the expected
/// shape, in order.
pub open spec fn seating_rows_spec(h: Seq<char>, q: Path, n: nat) -> Seq<(i32, (i32, u32, u32), Seq<char>)>
    decreases n,
{
    if n == 0 {
        Seq::empty()
    } else {
        let prev = seating_rows_spec(h, q, (n - 1) as nat);
        match main_row_spec(h, nth(q, "tr"@, (n - 1) as nat)) {
            Some(v) => prev.push(v),
            None => prev,
        }
    }
}

/// The path of the table body of the seating list.
pub open spec fn seating_list_body() -> Path {
    seq![(MAIN_PAGE_DIV_WITH_TABLE@, 0nat), (MAIN_PAGE_TABLE_CONTENT@, 0nat)]
}

/// What reading the seating list `h` gives: the seatings of its rows that have the
/// expected shape, or the message of the error.
pub open spec fn seating_list_spec(h: Seq<char>) -> Result<Seq<(i32, (i32, u32, u32), Seq<char>)>, Seq<char>> {
    let table = seq![(MAIN_PAGE_DIV_WITH_TABLE@, 0nat)];
    let body = seating_list_body();
    if document_match_count(h, MAIN_PAGE_DIV_WITH_TABLE@) == 0 {
        Err("Didn't find table with seatings on the main page"@)
    } else if element_match_count(h, table, MAIN_PAGE_TABLE_CONTENT@) == 0 {
        Err("Didn't find content in table"@)
    } else {
        let rows = seating_rows_spec(h, body, element_match_count(h, body, "tr"@));
        if rows.len() == 0 {
            Err("Didn't find any seatings in the list"@)
        } else {
            Ok(rows)
        }
    }
}

/// Reading the seating list `h` reaches no date that does not exist.
pub open spec fn seating_list_safe(h: Seq<char>) -> bool {
    document_match_count(h, MAIN_PAGE_DIV_WITH_TABLE@) > 0 && element_match_count(
        h,
        seq![(MAIN_PAGE_DIV_WITH_TABLE@, 0nat)],
        MAIN_PAGE_TABLE_CONTENT@,
    ) > 0 ==> forall|i: nat| #![trigger seating_row_at(h, i)]
        i < element_match_count(h, seating_list_body(), "tr"@) ==> main_row_safe(h, seating_row_at(h, i))
}

/// The path of the `i`-th row of the seating list.
pub open spec fn seating_row_at(h: Seq<char>, i: nat) -> Path {
    nth(seating_list_body(), "tr"@, i)
}

/// The seatings of the parliament's list of seatings, one for each row of its table
/// that has the expected shape; an error when the table is missing or has no such row.
pub fn parse_seating_list(document: &Document, sels: &Selectors) -> (r: Result<Vec<LoadableSeatingHeader>, PopisError>)
    requires
        sels.wf(),
        seating_list_safe(document@),
    ensures
        match seating_list_spec(document@) {
            Ok(rows) => r matches Ok(v) && v@.map_values(|s: LoadableSeatingHeader| loadable_seating_view(s)) == rows,
            Err(m) => r matches Err(PopisError::HtmlParsing(e)) && e@ == m,
        },
{
    let table = match document.select_first(&sels.div_with_table) {
        Some(t) => t,
        None => {
            return Err(parse_err("Didn't find table with seatings on the main page"));
        },
    };
    let content = match table.child(&sels.table_content) {
        Some(c) => c,
        None => {
            return Err(parse_err("Didn't find content in table"));
        },
    };
    let ghost h = document@;
    let ghost body = seating_list_body();
    assert(content@.1 =~= body);
    let rows = content.select(&sels.tr);
    let mut list: Vec<LoadableSeatingHeader> = Vec::new();
    let mut i: usize = 0;
    while i < rows.len()
        invariant
            i <= rows@.len(),
            sels.wf(),
            content@ == (h, body),
            body == seating_list_body(),
            document_match_count(h, MAIN_PAGE_DIV_WITH_TABLE@) > 0,
            element_match_count(h, seq![(MAIN_PAGE_DIV_WITH_TABLE@, 0nat)], MAIN_PAGE_TABLE_CONTENT@) > 0,
            rows@.len() == element_match_count(h, body, "tr"@),
            forall|k: int| 0 <= k < rows@.len() ==> #[trigger] rows@[k]@ == (h, body.push(("tr"@, k as nat))),
            seating_list_safe(h),
            list@.map_values(|s: LoadableSeatingHeader| loadable_seating_view(s)) == seating_rows_spec(h, body, i as nat),
        decreases rows@.len() - i,
    {
        assert(rows@[i as int]@ == (h, seating_row_at(h, i as nat)));
        assert(main_row_safe(h, seating_row_at(h, i as nat)));
        match parse_main_row(&rows[i], sels) {
            Some(s) => {
                list.push(s);
                assert(list@.map_values(|s: LoadableSeatingHeader| loadable_seating_view(s)) =~= seating_rows_spec(h, body, (i + 1) as nat));
            },
            None => {
                assert(list@.map_values(|s: LoadableSeatingHeader| loadable_seating_view(s)) =~= seating_rows_spec(h, body, (i + 1) as nat));
            },
        }
        i = i + 1;
    }
    if list.len() == 0 {
        Err(parse_err("Didn't find any seatings in the list"))
    } else {
        Ok(list)
    }
}

/// Reads the seating list as `parse_seating_list` does when no row of it names a
/// day that does not exist; `None` when one does.
pub fn parse_seating_list_checked(document: &Document, sels: &Selectors) -> (r: Option<
    Result<Vec<LoadableSeatingHeader>, PopisError>,
>)
    requires
        sels.wf(),
    ensures
        r is Some <==> seating_list_safe(document@),
        r matches Some(res) ==> match seating_list_spec(document@) {
            Ok(rows) => res matches Ok(v) && v@.map_values(|s: LoadableSeatingHeader| loadable_seating_view(s)) == rows,
            Err(m) => res matches Err(PopisError::HtmlParsing(e)) && e@ == m,
        },
{
    let ghost h = document@;
    let ghost body = seating_list_body();
    let safe = match document.select_first(&sels.div_with_table) {
        Some(table) => match table.child(&sels.table_content) {
            Some(content) => {
                assert(content@.1 =~= body);
                let rows = content.select(&sels.tr);
                let mut i: usize = 0;
                let mut ok = true;
                while i < rows.len()
                    invariant
                        i <= rows@.len(),
                        sels.wf(),
                        rows@.len() == element_match_count(h, body, "tr"@),
                        forall|k: int| 0 <= k < rows@.len() ==> #[trigger] rows@[k]@ == (h, body.push(("tr"@, k as nat))),
                        document_match_count(h, MAIN_PAGE_DIV_WITH_TABLE@) > 0,
                        element_match_count(h, seq![(MAIN_PAGE_DIV_WITH_TABLE@, 0nat)], MAIN_PAGE_TABLE_CONTENT@) > 0,
                        body == seating_list_body(),
                        ok ==> forall|k: nat| #![trigger seating_row_at(h, k)] k < i ==> main_row_safe(h, seating_row_at(h, k)),
                        !ok ==> !seating_list_safe(h),
                    decreases rows@.len() - i,
                {
                    assert(rows@[i as int]@ == (h, seating_row_at(h, i as nat)));
                    let (number_html, link) = seating_row_cells_of(&rows[i], sels);
                    if !seating_row_is_safe(&number_html, &link) {
                        ok = false;
                        assert(!main_row_safe(h, seating_row_at(h, i as nat)));
                    }
                    i = i + 1;
                }
                ok
            },
            None => true,
        },
        None => true,
    };
    if safe {
        Some(parse_seating_list(document, sels))
    } else {
        None
    }
}


// ---------------------------------------------------------------- votings of a seating

/// A voting to be loaded, as (number, description, address of its outcome).
pub open spec fn loadable_voting_view(v: LoadableVoting) -> (i32, Seq<char>, Seq<char>) {
    (v.voting.identifier, v.voting.description@, v.voting_result_url.0@)
}

/// The voting that a row of a seating's table describes, from the link of its first
/// cell (address and number) and its third cell (first text, and the inner HTML of
/// its link, which together make the description).
pub open spec fn voting_row_spec(
    link: Option<(Option<Seq<char>>, Seq<char>)>,
    description: Option<(Option<Seq<char>>, Option<Seq<char>>)>,
) -> Option<(i32, Seq<char>, Seq<char>)> {
    match link {
        None => None,
        Some((href, html)) => match href {
            None => None,
            Some(hr) => if !url_parse_succeeds(link_of(hr)) {
                None
            } else {
                match parse_i32_spec(html) {
                    None => None,
                    Some(number) => match description {
                        Some((Some(text), Some(second))) => Some((number, text + second, link_of(hr))),
                        _ => None,
                    },
                }
            },
        },
    }
}

/// The link cell and the description cell of the row at `p` of a seating's table.
pub open spec fn voting_row_cells(h: Seq<char>, p: Path) -> (
    Option<(Option<Seq<char>>, Seq<char>)>,
    Option<(Option<Seq<char>>, Option<Seq<char>>)>,
) {
    let link = if has_cell(h, p, 0) {
        link_in(h, nth(p, "td"@, 0))
    } else {
        None
    };
    let description = if has_cell(h, p, 2) {
        let c = nth(p, "td"@, 2);
        Some(
            (
                first_text_at(h, c),
                if has(h, c, "a"@) {
                    Some(inner_html_at(h, nth(c, "a"@, 0)))
                } else {
                    None
                },
            ),
        )
    } else {
        None
    };
    (link, description)
}

/// A description cell as optional character sequences.
pub open spec fn description_opt_view(d: Option<(Option<String>, Option<String>)>) -> Option<
    (Option<Seq<char>>, Option<Seq<char>>),
> {
    match d {
        Some((t, s)) => Some((opt_view(t), opt_view(s))),
        None => None,
    }
}

/// The voting that a row of a seating's table describes, from the `href` and inner
/// HTML of the link in its first cell and the first text and link HTML of its third.
pub fn voting_from_cells(
    link: Option<(Option<String>, String)>,
    description: Option<(Option<String>, Option<String>)>,
) -> (r: Option<LoadableVoting>)
    ensures
        match voting_row_spec(link_opt_view(link), description_opt_view(description)) {
            Some(v) => r matches Some(x) && loadable_voting_view(x) == v,
            None => r is None,
        },
{
    let (href, html) = match link {
        Some(l) => l,
        None => {
            return None;
        },
    };
    let href = match href {
        Some(h) => h,
        None => {
            return None;
        },
    };
    let url = match url_from_link(href.as_str()) {
        Some(u) => u,
        None => {
            return None;
        },
    };
    let number_chars = chars_of(html.as_str());
    let number = match parse_i32(number_chars.as_slice()) {
        Some(n) => n,
        None => {
            return None;
        },
    };
    let (text, second) = match description {
        Some((Some(t), Some(s))) => (t, s),
        _ => {
            return None;
        },
    };
    let mut text = text;
    text.append(second.as_str());
    Some(LoadableVoting::new(VotingHeader::new(number, text), url))
}

fn voting_row_cells_of(row: &Element, sels: &Selectors) -> (r: (
    Option<(Option<String>, String)>,
    Option<(Option<String>, Option<String>)>,
))
    requires
        sels.wf(),
    ensures
        (link_opt_view(r.0), description_opt_view(r.1)) == voting_row_cells(row@.0, row@.1),
{
    let cells = row.select(&sels.td);
    let link = if cells.len() > 0 {
        link_cells(&cells[0], sels)
    } else {
        None
    };
    let description = if cells.len() > 2 {
        let c = &cells[2];
        let second = match c.child(&sels.a) {
            Some(a) => Some(a.inner_html()),
            None => None,
        };
        Some((c.first_text(), second))
    } else {
        None
    };
    (link, description)
}

/// The voting that a row of a seating's table describes, if the row has that shape.
pub fn parse_voting_row(row: &Element, sels: &Selectors) -> (r: Option<LoadableVoting>)
    requires
        sels.wf(),
    ensures
        ({
            let (l, d) = voting_row_cells(row@.0, row@.1);
            match voting_row_spec(l, d) {
                Some(v) => r matches Some(x) && loadable_voting_view(x) == v,
                None => r is None,
            }
        }),
{
    let (link, description) = voting_row_cells_of(row, sels);
    voting_from_cells(link, description)
}

/// The votings of the rows at positions `0..n` below `q` that have the expected shape.
pub open spec fn voting_rows_spec(h: Seq<char>, q: Path, n: nat) -> Seq<(i32, Seq<char>, Seq<char>)>
    decreases n,
{
    if n == 0 {
        Seq::empty()
    } else {
        let prev = voting_rows_spec(h, q, (n - 1) as nat);
        let (l, d) = voting_row_cells(h, nth(q, "tr"@, (n - 1) as nat));
        match voting_row_spec(l, d) {
            Some(v) => prev.push(v),
            None => prev,
        }
    }
}

/// What reading the page of a seating `h` gives: its votings, or the message of the
/// error.
pub open spec fn votings_spec(h: Seq<char>) -> Result<Seq<(i32, Seq<char>, Seq<char>)>, Seq<char>> {
    let table = seq![(MAIN_PAGE_DIV_WITH_TABLE@, 0nat)];
    let body = seating_list_body();
    if document_match_count(h, MAIN_PAGE_DIV_WITH_TABLE@) == 0 || element_match_count(
        h,
        table,
        MAIN_PAGE_TABLE_CONTENT@,
    ) == 0 {
        Err("Didn't find table in seating"@)
    } else {
        let rows = voting_rows_spec(h, body, element_match_count(h, body, "tr"@));
        if rows.len() == 0 {
            Err("Didn't find any votings in the seating"@)
        } else {
            Ok(rows)
        }
    }
}

/// The votings of the page of a seating, one for each row of its table that has
/// the expected shape; an error when the table is missing or has no such row.
pub fn parse_votings(document: &Document, sels: &Selectors) -> (r: Result<Vec<LoadableVoting>, PopisError>)
    requires
        sels.wf(),
    ensures
        match votings_spec(document@) {
            Ok(rows) => r matches Ok(v) && v@.map_values(|x: LoadableVoting| loadable_voting_view(x)) == rows,
            Err(m) => r matches Err(PopisError::HtmlParsing(e)) && e@ == m,
        },
{
    let tbody = match document.select_first(&sels.div_with_table) {
        Some(div) => div.child(&sels.table_content),
        None => None,
    };
    let tbody = match tbody {
        Some(t) => t,
        None => {
            return Err(parse_err("Didn't find table in seating"));
        },
    };
    let ghost h = document@;
    let ghost body = seating_list_body();
    assert(tbody@.1 =~= body);
    let rows = tbody.select(&sels.tr);
    let mut table: Vec<LoadableVoting> = Vec::new();
    let mut i: usize = 0;
    while i < rows.len()
        invariant
            i <= rows@.len(),
            sels.wf(),
            rows@.len() == element_match_count(h, body, "tr"@),
            forall|k: int| 0 <= k < rows@.len() ==> #[trigger] rows@[k]@ == (h, body.push(("tr"@, k as nat))),
            table@.map_values(|x: LoadableVoting| loadable_voting_view(x)) == voting_rows_spec(h, body, i as nat),
        decreases rows@.len() - i,
    {
        assert(rows@[i as int]@ == (h, nth(body, "tr"@, i as nat)));
        match parse_voting_row(&rows[i], sels) {
            Some(v) => {
                table.push(v);
                assert(table@.map_values(|x: LoadableVoting| loadable_voting_view(x)) =~= voting_rows_spec(h, body, (i + 1) as nat));
            },
            None => {
                assert(table@.map_values(|x: LoadableVoting| loadable_voting_view(x)) =~= voting_rows_spec(h, body, (i + 1) as nat));
            },
        }
        i = i + 1;
    }
    if table.len() == 0 {
        Err(parse_err("Didn't find any votings in the seating"))
    } else {
        Ok(table)
    }
}

// ---------------------------------------------------------------- outcome of a voting

/// The number written in a vote cell: 0 when the cell has no number or it does not
/// parse.
pub open spec fn vote_count_spec(c: Option<Seq<char>>) -> u32 {
    match c {
        Some(s) => match parse_u32_spec(s) {
            Some(n) => n,
            None => 0,
        },
        None => 0,
    }
}

/// How a party voted, from the name in its first cell and the numbers of votes for,
/// against and held in its fourth, fifth and sixth cells (`None` for a missing cell).
pub open spec fn party_vote_row_spec(
    party: Option<Seq<char>>,
    votes_for: Option<Option<Seq<char>>>,
    votes_against: Option<Option<Seq<char>>>,
    votes_held: Option<Option<Seq<char>>>,
) -> Option<(Seq<char>, Vote)> {
    match (party, votes_for, votes_against, votes_held) {
        (Some(name), Some(f), Some(a), Some(hd)) => Some(
            (name, from_votes_spec(vote_count_spec(f), vote_count_spec(a), vote_count_spec(hd))),
        ),
        _ => None,
    }
}

/// The number cell `k` of the row at `p`, when there is one.
pub open spec fn vote_cell(h: Seq<char>, p: Path, k: nat) -> Option<Option<Seq<char>>> {
    if has_cell(h, p, k) {
        Some(strong_in_link(h, nth(p, "td"@, k)))
    } else {
        None
    }
}

/// How the party of the row at `p` of an outcome table voted.
pub open spec fn party_row_spec(h: Seq<char>, p: Path) -> Option<(Seq<char>, Vote)> {
    let party = if has_cell(h, p, 0) {
        strong_in_link(h, nth(p, "td"@, 0))
    } else {
        None
    };
    party_vote_row_spec(party, vote_cell(h, p, 3), vote_cell(h, p, 4), vote_cell(h, p, 5))
}

/// A vote cell as optional character sequences.
pub open spec fn cell_opt_view(c: Option<Option<String>>) -> Option<Option<Seq<char>>> {
    match c {
        Some(o) => Some(opt_view(o)),
        None => None,
    }
}

fn vote_count(c: &Option<String>) -> (n: u32)
    ensures
        n == vote_count_spec(opt_view(*c)),
{
    match c {
        Some(s) => {
            let chars = chars_of(s.as_str());
            match parse_u32(chars.as_slice()) {
                Some(n) => n,
                None => 0,
            }
        },
        None => 0,
    }
}

/// How a party voted, from the name in its first cell and the (optional) numbers in
/// its vote cells; `None` when the name or a vote cell is missing.
pub fn party_vote_from_cells(
    party: Option<String>,
    votes_for: Option<Option<String>>,
    votes_against: Option<Option<String>>,
    votes_held: Option<Option<String>>,
) -> (r: Option<PartyVote>)
    ensures
        match party_vote_row_spec(
            opt_view(party),
            cell_opt_view(votes_for),
            cell_opt_view(votes_against),
            cell_opt_view(votes_held),
        ) {
            Some(v) => r matches Some(pv) && pv@ == v,
            None => r is None,
        },
{
    match (party, votes_for, votes_against, votes_held) {
        (Some(name), Some(f), Some(a), Some(hd)) => {
            let vote = Vote::from_votes(vote_count(&f), vote_count(&a), vote_count(&hd));
            Some(PartyVote::new(Party::new(name), vote))
        },
        _ => None,
    }
}

/// How the party of a row of an outcome table voted, if the row has that shape.
pub fn parse_voting_result_row(row: &Element, sels: &Selectors) -> (r: Option<PartyVote>)
    requires
        sels.wf(),
    ensures
        match party_row_spec(row@.0, row@.1) {
            Some(v) => r matches Some(pv) && pv@ == v,
            None => r is None,
        },
{
    let cells = row.select(&sels.td);
    let party = if cells.len() > 0 {
        strong_cell(&cells[0], sels)
    } else {
        None
    };
    let votes_for = if cells.len() > 3 {
        Some(strong_cell(&cells[3], sels))
    } else {
        None
    };
    let votes_against = if cells.len() > 4 {
        Some(strong_cell(&cells[4], sels))
    } else {
        None
    };
    let votes_held = if cells.len() > 5 {
        Some(strong_cell(&cells[5], sels))
    } else {
        None
    };
    party_vote_from_cells(party, votes_for, votes_against, votes_held)
}

/// The path of the table body of the outcome of a voting.
pub open spec fn results_body() -> Path {
    seq![("#main"@, 0nat), ("#contentBody"@, 0nat), ("table.kluby"@, 0nat), ("tbody"@, 0nat)]
}

/// Whether the outcome page `h` has its table body.
pub open spec fn has_results_body(h: Seq<char>) -> bool {
    let b = results_body();
    &&& document_match_count(h, "#main"@) > 0
    &&& element_match_count(h, b.take(1), "#contentBody"@) > 0
    &&& element_match_count(h, b.take(2), "table.kluby"@) > 0
    &&& element_match_count(h, b.take(3), "tbody"@) > 0
}

/// The votes of the parties of the rows at positions `0..n` below `q` that have the
/// expected shape.
pub open spec fn party_rows_spec(h: Seq<char>, q: Path, n: nat) -> Seq<(Seq<char>, Vote)>
    decreases n,
{
    if n == 0 {
        Seq::empty()
    } else {
        let prev = party_rows_spec(h, q, (n - 1) as nat);
        match party_row_spec(h, nth(q, "tr"@, (n - 1) as nat)) {
            Some(v) => prev.push(v),
            None => prev,
        }
    }
}

/// What reading the outcome page `h` gives: how the parties voted, or the message of
/// the error.
pub open spec fn voting_result_spec(h: Seq<char>) -> Result<Seq<(Seq<char>, Vote)>, Seq<char>> {
    let body = results_body();
    if !has_results_body(h) {
        Err("Didn't find table body in voting results"@)
    } else {
        let rows = party_rows_spec(h, body, element_match_count(h, body, "tr"@));
        if rows.len() == 0 {
            Err("Didn't find any parties votes' in the voting"@)
        } else {
            Ok(rows)
        }
    }
}

/// How the parties voted according to the outcome page of a voting, one vote for
/// each row of its table that has the expected shape; an error when the table is
/// missing or has no such row.
pub fn parse_voting_result(document: &Document, sels: &Selectors) -> (r: Result<VotingResult, PopisError>)
    requires
        sels.wf(),
    ensures
        match voting_result_spec(document@) {
            Ok(rows) => r matches Ok(v) && party_votes_view(v.parties_votes@) == rows,
            Err(m) => r matches Err(PopisError::HtmlParsing(e)) && e@ == m,
        },
{
    let ghost h = document@;
    let ghost b = results_body();
    let tbody = match document.select_first(&sels.main) {
        Some(main) => match main.child(&sels.content_body) {
            Some(div) => match div.child(&sels.kluby) {
                Some(table) => table.child(&sels.table_content),
                None => None,
            },
            None => None,
        },
        None => None,
    };
    proof {
        assert(b.take(1) =~= seq![("#main"@, 0nat)]);
        assert(b.take(2) =~= b.take(1).push(("#contentBody"@, 0nat)));
        assert(b.take(3) =~= b.take(2).push(("table.kluby"@, 0nat)));
        assert(b =~= b.take(3).push(("tbody"@, 0nat)));
    }
    let tbody = match tbody {
        Some(t) => t,
        None => {
            return Err(parse_err("Didn't find table body in voting results"));
        },
    };
    assert(tbody@.1 =~= b);
    let rows = tbody.select(&sels.tr);
    let mut table: Vec<PartyVote> = Vec::new();
    let mut i: usize = 0;
    while i < rows.len()
        invariant
            i <= rows@.len(),
            sels.wf(),
            rows@.len() == element_match_count(h, b, "tr"@),
            forall|k: int| 0 <= k < rows@.len() ==> #[trigger] rows@[k]@ == (h, b.push(("tr"@, k as nat))),
            party_votes_view(table@) == party_rows_spec(h, b, i as nat),
        decreases rows@.len() - i,
    {
        assert(rows@[i as int]@ == (h, nth(b, "tr"@, i as nat)));
        match parse_voting_result_row(&rows[i], sels) {
            Some(v) => {
                table.push(v);
                assert(party_votes_view(table@) =~= party_rows_spec(h, b, (i + 1) as nat));
            },
            None => {
                assert(party_votes_view(table@) =~= party_rows_spec(h, b, (i + 1) as nat));
            },
        }
        i = i + 1;
    }
    if table.len() == 0 {
        Err(parse_err("Didn't find any parties votes' in the voting"))
    } else {
        Ok(VotingResult::new(table))
    }
}

// ---------------------------------------------------------------- every row is read

/// The paths of the first `n` rows below `q`, in order.
pub open spec fn row_paths(q: Path, n: nat) -> Seq<Path> {
    Seq::new(n, |i: int| nth(q, "tr"@, i as nat))
}

/// How a party voted according to each row of the outcome page `h`.
pub open spec fn party_row_reader(h: Seq<char>) -> spec_fn(Path) -> Option<(Seq<char>, Vote)> {
    |p: Path| party_row_spec(h, p)
}

/// The voting that each row of the seating page `h` describes.
pub open spec fn voting_row_reader(h: Seq<char>) -> spec_fn(Path) -> Option<(i32, Seq<char>, Seq<char>)> {
    |p: Path| {
        let (l, d) = voting_row_cells(h, p);
        voting_row_spec(l, d)
    }
}

/// The seating that each row of the seating list `h` describes.
pub open spec fn seating_row_reader(h: Seq<char>) -> spec_fn(Path) -> Option<(i32, (i32, u32, u32), Seq<char>)> {
    |p: Path| main_row_spec(h, p)
}

proof fn lemma_row_paths_last(q: Path, n: nat)
    requires
        n > 0,
    ensures
        row_paths(q, n).drop_last() == row_paths(q, (n - 1) as nat),
        row_paths(q, n).last() == nth(q, "tr"@, (n - 1) as nat),
{
    assert(row_paths(q, n).drop_last() =~= row_paths(q, (n - 1) as nat));
}

/// The parties' votes of the first `n` rows below `q` are what the row reader gives
/// for each of those rows, in order, leaving out the rows without the expected shape.
pub proof fn lemma_party_rows_every_row(h: Seq<char>, q: Path, n: nat)
    ensures
        party_rows_spec(h, q, n) == row_paths(q, n).filter_map(party_row_reader(h)),
    decreases n,
{
    if n > 0 {
        lemma_party_rows_every_row(h, q, (n - 1) as nat);
        lemma_row_paths_last(q, n);
        let prev = row_paths(q, (n - 1) as nat).filter_map(party_row_reader(h));
        assert(prev + seq![party_row_spec(h, nth(q, "tr"@, (n - 1) as nat))->Some_0] =~= prev.push(
            party_row_spec(h, nth(q, "tr"@, (n - 1) as nat))->Some_0,
        ));
    }
}

/// The votings of the first `n` rows below `q` are what the row reader gives for
/// each of those rows, in order, leaving out the rows without the expected shape.
pub proof fn lemma_voting_rows_every_row(h: Seq<char>, q: Path, n: nat)
    ensures
        voting_rows_spec(h, q, n) == row_paths(q, n).filter_map(voting_row_reader(h)),
    decreases n,
{
    if n > 0 {
        lemma_voting_rows_every_row(h, q, (n - 1) as nat);
        lemma_row_paths_last(q, n);
        let prev = row_paths(q, (n - 1) as nat).filter_map(voting_row_reader(h));
        let last = (voting_row_reader(h))(nth(q, "tr"@, (n - 1) as nat));
        assert(prev + seq![last->Some_0] =~= prev.push(last->Some_0));
    }
}

/// The seatings of the first `n` rows below `q` are what the row reader gives for
/// each of those rows, in order, leaving out the rows without the expected shape.
pub proof fn lemma_seating_rows_every_row(h: Seq<char>, q: Path, n: nat)
    ensures
        seating_rows_spec(h, q, n) == row_paths(q, n).filter_map(seating_row_reader(h)),
    decreases n,
{
    if n > 0 {
        lemma_seating_rows_every_row(h, q, (n - 1) as nat);
        lemma_row_paths_last(q, n);
        let prev = row_paths(q, (n - 1) as nat).filter_map(seating_row_reader(h));
        let last = main_row_spec(h, nth(q, "tr"@, (n - 1) as nat));
        assert(prev + seq![last->Some_0] =~= prev.push(last->Some_0));
    }
}

/// When every item of `s` is kept, `filter_map` keeps them all, in order.
proof fn lemma_filter_map_keeps_all<A, B>(s: Seq<A>, f: spec_fn(A) -> Option<B>)
    requires
        forall|i: int| 0 <= i < s.len() ==> #[trigger] f(s[i]) is Some,
    ensures
        s.filter_map(f) == Seq::new(s.len(), |i: int| f(s[i])->Some_0),
    decreases s.len(),
{
    if s.len() > 0 {
        let rest = s.drop_last();
        assert forall|i: int| 0 <= i < rest.len() implies #[trigger] f(rest[i]) is Some by {
            assert(rest[i] == s[i]);
        }
        lemma_filter_map_keeps_all(rest, f);
        assert(s.filter_map(f) =~= Seq::new(s.len(), |i: int| f(s[i])->Some_0));
    }
}

/// What `filter_map` makes of the last item of `s`, when it is kept, comes last.
proof fn lemma_filter_map_keeps_last<A, B>(s: Seq<A>, f: spec_fn(A) -> Option<B>)
    requires
        s.len() > 0,
        f(s.last()) is Some,
    ensures
        s.filter_map(f).len() > 0,
        s.filter_map(f).last() == f(s.last())->Some_0,
{
    let rest = s.drop_last().filter_map(f);
    assert((rest + seq![f(s.last())->Some_0]).last() == f(s.last())->Some_0);
}

/// Every row of an outcome table is read: how the parties voted is, in order, what
/// each row of the table that has the expected shape says, the last row included;
/// the page is refused only when no row has that shape.
pub proof fn lemma_voting_result_reads_every_row(h: Seq<char>)
    requires
        has_results_body(h),
    ensures
        ({
            let b = results_body();
            let votes = row_paths(b, element_match_count(h, b, "tr"@)).filter_map(party_row_reader(h));
            &&& votes.len() > 0 ==> voting_result_spec(h) == Ok::<_, Seq<char>>(votes)
            &&& votes.len() == 0 ==> voting_result_spec(h) is Err
        }),
{
    let b = results_body();
    lemma_party_rows_every_row(h, b, element_match_count(h, b, "tr"@));
}

/// An outcome table whose rows all have the expected shape gives one party vote per
/// row, in the order of the rows.
pub proof fn lemma_voting_result_all_rows(h: Seq<char>)
    requires
        has_results_body(h),
        element_match_count(h, results_body(), "tr"@) > 0,
        forall|i: nat| i < element_match_count(h, results_body(), "tr"@)
            ==> #[trigger] party_row_spec(h, nth(results_body(), "tr"@, i)) is Some,
    ensures
        ({
            let b = results_body();
            let n = element_match_count(h, b, "tr"@);
            voting_result_spec(h) == Ok::<_, Seq<char>>(
                Seq::new(n, |i: int| party_row_spec(h, nth(b, "tr"@, i as nat))->Some_0),
            )
        }),
{
    let b = results_body();
    let n = element_match_count(h, b, "tr"@);
    let ps = row_paths(b, n);
    lemma_party_rows_every_row(h, b, n);
    assert forall|i: int| 0 <= i < ps.len() implies #[trigger] (party_row_reader(h))(ps[i]) is Some by {
        assert(party_row_spec(h, nth(b, "tr"@, i as nat)) is Some);
    }
    lemma_filter_map_keeps_all(ps, party_row_reader(h));
    assert(ps.filter_map(party_row_reader(h)) =~= Seq::new(
        n,
        |i: int| party_row_spec(h, nth(b, "tr"@, i as nat))->Some_0,
    ));
}

/// The last row of an outcome table, when it has the expected shape, gives the last
/// party vote of the outcome.
pub proof fn lemma_voting_result_last_row(h: Seq<char>)
    requires
        has_results_body(h),
        element_match_count(h, results_body(), "tr"@) > 0,
        party_row_spec(
            h,
            nth(results_body(), "tr"@, (element_match_count(h, results_body(), "tr"@) - 1) as nat),
        ) is Some,
    ensures
        ({
            let b = results_body();
            let n = element_match_count(h, b, "tr"@);
            voting_result_spec(h) matches Ok(votes) && votes.last() == party_row_spec(
                h,
                nth(b, "tr"@, (n - 1) as nat),
            )->Some_0
        }),
{
    let b = results_body();
    let n = element_match_count(h, b, "tr"@);
    lemma_party_rows_every_row(h, b, n);
    lemma_row_paths_last(b, n);
    lemma_filter_map_keeps_last(row_paths(b, n), party_row_reader(h));
}

/// Whether the page `h` has the table body that seatings and votings are listed in.
pub open spec fn has_seating_table(h: Seq<char>) -> bool {
    &&& document_match_count(h, MAIN_PAGE_DIV_WITH_TABLE@) > 0
    &&& element_match_count(h, seq![(MAIN_PAGE_DIV_WITH_TABLE@, 0nat)], MAIN_PAGE_TABLE_CONTENT@) > 0
}

/// Every row of the table of a seating's page is read: the votings are, in order, what
/// each row of the table that has the expected shape says, the last row included;
/// the page is refused only when no row has that shape.
pub proof fn lemma_votings_reads_every_row(h: Seq<char>)
    requires
        has_seating_table(h),
    ensures
        ({
            let b = seating_list_body();
            let items = row_paths(b, element_match_count(h, b, "tr"@)).filter_map(voting_row_reader(h));
            &&& items.len() > 0 ==> votings_spec(h) == Ok::<_, Seq<char>>(items)
            &&& items.len() == 0 ==> votings_spec(h) is Err
        }),
{
    let b = seating_list_body();
    lemma_voting_rows_every_row(h, b, element_match_count(h, b, "tr"@));
}

/// A table of a seating's page whose rows all have the expected shape gives one voting
/// per row, in the order of the rows.
pub proof fn lemma_votings_all_rows(h: Seq<char>)
    requires
        has_seating_table(h),
        element_match_count(h, seating_list_body(), "tr"@) > 0,
        forall|i: nat| i < element_match_count(h, seating_list_body(), "tr"@)
            ==> #[trigger] (voting_row_reader(h))(nth(seating_list_body(), "tr"@, i)) is Some,
    ensures
        ({
            let b = seating_list_body();
            let n = element_match_count(h, b, "tr"@);
            votings_spec(h) == Ok::<_, Seq<char>>(
                Seq::new(n, |i: int| (voting_row_reader(h))(nth(b, "tr"@, i as nat))->Some_0),
            )
        }),
{
    let b = seating_list_body();
    let n = element_match_count(h, b, "tr"@);
    let ps = row_paths(b, n);
    lemma_voting_rows_every_row(h, b, n);
    assert forall|i: int| 0 <= i < ps.len() implies #[trigger] (voting_row_reader(h))(ps[i]) is Some by {
        assert((voting_row_reader(h))(nth(b, "tr"@, i as nat)) is Some);
    }
    lemma_filter_map_keeps_all(ps, voting_row_reader(h));
    assert(ps.filter_map(voting_row_reader(h)) =~= Seq::new(
        n,
        |i: int| (voting_row_reader(h))(nth(b, "tr"@, i as nat))->Some_0,
    ));
}

/// The last row of the table of a seating's page, when it has the expected shape, gives
/// the last voting.
pub proof fn lemma_votings_last_row(h: Seq<char>)
    requires
        has_seating_table(h),
        element_match_count(h, seating_list_body(), "tr"@) > 0,
        (voting_row_reader(h))(
            nth(seating_list_body(), "tr"@, (element_match_count(h, seating_list_body(), "tr"@) - 1) as nat),
        ) is Some,
    ensures
        ({
            let b = seating_list_body();
            let n = element_match_count(h, b, "tr"@);
            votings_spec(h) matches Ok(items) && items.last() == (voting_row_reader(h))(nth(b, "tr"@, (n - 1) as nat))->Some_0
        }),
{
    let b = seating_list_body();
    let n = element_match_count(h, b, "tr"@);
    lemma_voting_rows_every_row(h, b, n);
    lemma_row_paths_last(b, n);
    lemma_filter_map_keeps_last(row_paths(b, n), voting_row_reader(h));
}

/// Every row of the table of a seating list is read: the seatings are, in order, what
/// each row of the table that has the expected shape says, the last row included;
/// the page is refused only when no row has that shape.
pub proof fn lemma_seating_list_reads_every_row(h: Seq<char>)
    requires
        has_seating_table(h),
    ensures
        ({
            let b = seating_list_body();
            let items = row_paths(b, element_match_count(h, b, "tr"@)).filter_map(seating_row_reader(h));
            &&& items.len() > 0 ==> seating_list_spec(h) == Ok::<_, Seq<char>>(items)
            &&& items.len() == 0 ==> seating_list_spec(h) is Err
        }),
{
    let b = seating_list_body();
    lemma_seating_rows_every_row(h, b, element_match_count(h, b, "tr"@));
}

/// A table of a seating list whose rows all have the expected shape gives one seating
/// per row, in the order of the rows.
pub proof fn lemma_seating_list_all_rows(h: Seq<char>)
    requires
        has_seating_table(h),
        element_match_count(h, seating_list_body(), "tr"@) > 0,
        forall|i: nat| i < element_match_count(h, seating_list_body(), "tr"@)
            ==> #[trigger] (seating_row_reader(h))(nth(seating_list_body(), "tr"@, i)) is Some,
    ensures
        ({
            let b = seating_list_body();
            let n = element_match_count(h, b, "tr"@);
            seating_list_spec(h) == Ok::<_, Seq<char>>(
                Seq::new(n, |i: int| (seating_row_reader(h))(nth(b, "tr"@, i as nat))->Some_0),
            )
        }),
{
    let b = seating_list_body();
    let n = element_match_count(h, b, "tr"@);
    let ps = row_paths(b, n);
    lemma_seating_rows_every_row(h, b, n);
    assert forall|i: int| 0 <= i < ps.len() implies #[trigger] (seating_row_reader(h))(ps[i]) is Some by {
        assert((seating_row_reader(h))(nth(b, "tr"@, i as nat)) is Some);
    }
    lemma_filter_map_keeps_all(ps, seating_row_reader(h));
    assert(ps.filter_map(seating_row_reader(h)) =~= Seq::new(
        n,
        |i: int| (seating_row_reader(h))(nth(b, "tr"@, i as nat))->Some_0,
    ));
}

/// The last row of the table of a seating list, when it has the expected shape, gives
/// the last seating.
pub proof fn lemma_seating_list_last_row(h: Seq<char>)
    requires
        has_seating_table(h),
        element_match_count(h, seating_list_body(), "tr"@) > 0,
        (seating_row_reader(h))(
            nth(seating_list_body(), "tr"@, (element_match_count(h, seating_list_body(), "tr"@) - 1) as nat),
        ) is Some,
    ensures
        ({
            let b = seating_list_body();
            let n = element_match_count(h, b, "tr"@);
            seating_list_spec(h) matches Ok(items) && items.last() == (seating_row_reader(h))(nth(b, "tr"@, (n - 1) as nat))->Some_0
        }),
{
    let b = seating_list_body();
    let n = element_match_count(h, b, "tr"@);
    lemma_seating_rows_every_row(h, b, n);
    lemma_row_paths_last(b, n);
    lemma_filter_map_keeps_last(row_paths(b, n), seating_row_reader(h));
}

} // verus!
