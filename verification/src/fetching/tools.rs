//! Addresses of the parliament's pages, Polish dates and page text.

use vstd::prelude::*;
use crate::domain::data::{Date, valid_ymd};
use crate::error::PopisError;
use crate::fetching::data::{Url, url_parse_succeeds};
use crate::text::{
    chars_eq, chars_of, decimal_spec, lemma_split_nonempty, parse_i32, parse_i32_spec, parse_u32,
    parse_u32_spec, push_char, push_decimal, split_chars, split_spec, trim_chars, trim_spec,
};

verus! {

/// Where the pages of the parliament's ninth term live.
pub open spec fn site_prefix() -> Seq<char> {
    "https://www.sejm.gov.pl/sejm9.nsf/"@
}

/// The address of the list of seatings of term `cadence`.
pub open spec fn seatings_link(cadence: u32) -> Seq<char> {
    site_prefix() + "agent.xsp?symbol=posglos&NrKadencji="@ + decimal_spec(cadence as nat)
}

fn seatings_link_text(cadence: u32) -> (s: String)
    ensures
        s@ == seatings_link(cadence),
{
    let mut s = String::from_str("https://www.sejm.gov.pl/sejm9.nsf/");
    s.append("agent.xsp?symbol=posglos&NrKadencji=");
    push_decimal(&mut s, cadence as u64);
    assert(s@ =~= seatings_link(cadence));
    s
}

/// The address of the list of seatings of term `cadence` (the address is a
/// well-formed URL for every term; `try_seatings_url` checks it).
pub fn seatings_url(cadence: u32) -> (u: Url)
    requires
        url_parse_succeeds(seatings_link(cadence)),
    ensures
        u.0@ == seatings_link(cadence),
{
    match Url::try_new(seatings_link_text(cadence)) {
        Some(u) => u,
        None => vstd::pervasive::unreached(),
    }
}

/// The address of the list of seatings of term `cadence`, or `None` if it does not
/// parse as a URL.
pub fn try_seatings_url(cadence: u32) -> (r: Option<Url>)
    ensures
        r is Some <==> url_parse_succeeds(seatings_link(cadence)),
        r matches Some(u) ==> u.0@ == seatings_link(cadence),
{
    match Url::try_new(seatings_link_text(cadence)) {
        Some(_) => Some(seatings_url(cadence)),
        None => None,
    }
}

/// The absolute address of the link `href` of a page of the site.
pub open spec fn link_of(href: Seq<char>) -> Seq<char> {
    site_prefix() + href
}

/// The absolute address of the link `href`, if it is a URL.
pub fn url_from_link(href_link: &str) -> (r: Option<Url>)
    ensures
        r is Some <==> url_parse_succeeds(link_of(href_link@)),
        r matches Some(u) ==> u.0@ == link_of(href_link@),
{
    let mut s = String::from_str("https://www.sejm.gov.pl/sejm9.nsf/");
    s.append(href_link);
    Url::try_new(s)
}

/// The error for a page without the expected structure.
pub fn parse_err(s: &str) -> (e: PopisError)
    ensures
        e matches PopisError::HtmlParsing(m) && m@ == s@,
{
    PopisError::HtmlParsing(String::from_str(s))
}

/// The number of a month from its Polish name in the genitive, as in "12 maja 2023".
pub open spec fn month_number_spec(m: Seq<char>) -> Option<u32> {
    if m == "stycznia"@ {
        Some(1)
    } else if m == "lutego"@ {
        Some(2)
    } else if m == "marca"@ {
        Some(3)
    } else if m == "kwietnia"@ {
        Some(4)
    } else if m == "maja"@ {
        Some(5)
    } else if m == "czerwca"@ {
        Some(6)
    } else if m == "lipca"@ {
        Some(7)
    } else if m == "sierpnia"@ {
        Some(8)
    } else if m == "września"@ {
        Some(9)
    } else if m == "października"@ {
        Some(10)
    } else if m == "listopada"@ {
        Some(11)
    } else if m == "grudnia"@ {
        Some(12)
    } else {
        None
    }
}

fn is_month(m: &[char], name: &str) -> (r: bool)
    ensures
        r == (m@ == name@),
{
    let n = chars_of(name);
    chars_eq(m, n.as_slice())
}

/// The number of the month named `m`.
pub fn month_number(m: &[char]) -> (r: Option<u32>)
    ensures
        r == month_number_spec(m@),
{
    if is_month(m, "stycznia") {
        Some(1)
    } else if is_month(m, "lutego") {
        Some(2)
    } else if is_month(m, "marca") {
        Some(3)
    } else if is_month(m, "kwietnia") {
        Some(4)
    } else if is_month(m, "maja") {
        Some(5)
    } else if is_month(m, "czerwca") {
        Some(6)
    } else if is_month(m, "lipca") {
        Some(7)
    } else if is_month(m, "sierpnia") {
        Some(8)
    } else if is_month(m, "września") {
        Some(9)
    } else if is_month(m, "października") {
        Some(10)
    } else if is_month(m, "listopada") {
        Some(11)
    } else if is_month(m, "grudnia") {
        Some(12)
    } else {
        None
    }
}

/// The Polish names of the months in the genitive, January first.
pub open spec fn polish_months() -> Seq<Seq<char>> {
    seq![
        "stycznia"@, "lutego"@, "marca"@, "kwietnia"@, "maja"@, "czerwca"@, "lipca"@,
        "sierpnia"@, "września"@, "października"@, "listopada"@, "grudnia"@,
    ]
}

/// The `k`-th month name of the year (1 for January) is read as month `k`, and a
/// text is read as month `k` only when it is that name; every other text names no
/// month.
pub proof fn lemma_month_numbers(m: Seq<char>)
    ensures
        forall|k: int| 1 <= k <= 12 ==> #[trigger] month_number_spec(polish_months()[k - 1])
            == Some(k as u32),
        match month_number_spec(m) {
            Some(k) => 1 <= k <= 12 && polish_months()[k - 1] == m,
            None => !polish_months().contains(m),
        },
{
    reveal_strlit("stycznia");
    reveal_strlit("lutego");
    reveal_strlit("marca");
    reveal_strlit("kwietnia");
    reveal_strlit("maja");
    reveal_strlit("czerwca");
    reveal_strlit("lipca");
    reveal_strlit("sierpnia");
    reveal_strlit("września");
    reveal_strlit("października");
    reveal_strlit("listopada");
    reveal_strlit("grudnia");
    let ms = polish_months();
    assert(ms[0] == "stycznia"@ && "stycznia"@.len() == 8 && "stycznia"@[0] == 's' && "stycznia"@[1] == 't');
    assert(month_number_spec(ms[0]) == Some(1u32));
    assert(ms[1] == "lutego"@ && "lutego"@.len() == 6 && "lutego"@[0] == 'l' && "lutego"@[1] == 'u');
    assert(month_number_spec(ms[1]) == Some(2u32));
    assert(ms[2] == "marca"@ && "marca"@.len() == 5 && "marca"@[0] == 'm' && "marca"@[1] == 'a');
    assert(month_number_spec(ms[2]) == Some(3u32));
    assert(ms[3] == "kwietnia"@ && "kwietnia"@.len() == 8 && "kwietnia"@[0] == 'k' && "kwietnia"@[1] == 'w');
    assert(month_number_spec(ms[3]) == Some(4u32));
    assert(ms[4] == "maja"@ && "maja"@.len() == 4 && "maja"@[0] == 'm' && "maja"@[1] == 'a');
    assert(month_number_spec(ms[4]) == Some(5u32));
    assert(ms[5] == "czerwca"@ && "czerwca"@.len() == 7 && "czerwca"@[0] == 'c' && "czerwca"@[1] == 'z');
    assert(month_number_spec(ms[5]) == Some(6u32));
    assert(ms[6] == "lipca"@ && "lipca"@.len() == 5 && "lipca"@[0] == 'l' && "lipca"@[1] == 'i');
    assert(month_number_spec(ms[6]) == Some(7u32));
    assert(ms[7] == "sierpnia"@ && "sierpnia"@.len() == 8 && "sierpnia"@[0] == 's' && "sierpnia"@[1] == 'i');
    assert(month_number_spec(ms[7]) == Some(8u32));
    assert(ms[8] == "września"@ && "września"@.len() == 8 && "września"@[0] == 'w' && "września"@[1] == 'r');
    assert(month_number_spec(ms[8]) == Some(9u32));
    assert(ms[9] == "października"@ && "października"@.len() == 12 && "października"@[0] == 'p' && "października"@[1] == 'a');
    assert(month_number_spec(ms[9]) == Some(10u32));
    assert(ms[10] == "listopada"@ && "listopada"@.len() == 9 && "listopada"@[0] == 'l' && "listopada"@[1] == 'i');
    assert(month_number_spec(ms[10]) == Some(11u32));
    assert(ms[11] == "grudnia"@ && "grudnia"@.len() == 7 && "grudnia"@[0] == 'g' && "grudnia"@[1] == 'r');
    assert(month_number_spec(ms[11]) == Some(12u32));
    assert forall|k: int| 1 <= k <= 12 implies #[trigger] month_number_spec(ms[k - 1]) == Some(k as u32) by {
    }
    if month_number_spec(m) is None && ms.contains(m) {
        let j = choose|j: int| 0 <= j < ms.len() && ms[j] == m;
        assert(month_number_spec(ms[(j + 1) - 1]) == Some((j + 1) as u32));
    }
}

/// Year, month and day of a Polish date such as " 12 maja 2023 ": after trimming,
/// the words between single spaces are the day, the month's name and the year;
/// anything after the third word is ignored.
pub open spec fn date_fields_spec(s: Seq<char>) -> Option<(i32, u32, u32)> {
    let pieces = split_spec(trim_spec(s), ' ');
    match parse_u32_spec(pieces[0]) {
        None => None,
        Some(day) => if pieces.len() < 2 {
            None
        } else {
            match month_number_spec(pieces[1]) {
                None => None,
                Some(month) => if pieces.len() < 3 {
                    None
                } else {
                    match parse_i32_spec(pieces[2]) {
                        None => None,
                        Some(year) => Some((year, month, day)),
                    }
                },
            }
        },
    }
}

/// Reading `s` as a date does not reach a day that does not exist.
pub open spec fn date_text_safe(s: Seq<char>) -> bool {
    match date_fields_spec(s) {
        Some((y, m, d)) => valid_ymd(y, m, d),
        None => true,
    }
}

/// Year, month and day written in the Polish date `polish_date`, if it has the shape
/// "day month-name year".
pub fn date_fields(polish_date: &str) -> (r: Option<(i32, u32, u32)>)
    ensures
        r == date_fields_spec(polish_date@),
{
    let chars = chars_of(polish_date);
    let trimmed = trim_chars(chars.as_slice());
    let pieces = split_chars(trimmed.as_slice(), ' ');
    proof {
        lemma_split_nonempty(trimmed@, ' ');
    }
    let day = match parse_u32(pieces[0].as_slice()) {
        Some(d) => d,
        None => {
            return None;
        },
    };
    if pieces.len() < 2 {
        return None;
    }
    let month = match month_number(pieces[1].as_slice()) {
        Some(m) => m,
        None => {
            return None;
        },
    };
    if pieces.len() < 3 {
        return None;
    }
    let year = match parse_i32(pieces[2].as_slice()) {
        Some(y) => y,
        None => {
            return None;
        },
    };
    Some((year, month, day))
}

/// Whether `polish_date` reads as a date that does not exist (such as "31 lutego
/// 2023"), on which `map_date` is not to be called.
pub fn date_text_is_safe(polish_date: &str) -> (r: bool)
    ensures
        r == date_text_safe(polish_date@),
{
    match date_fields(polish_date) {
        Some((y, m, d)) => Date::from_ymd_opt(y, m, d).is_some(),
        None => true,
    }
}

/// The day written in Polish in `polish_date`, such as "12 maja 2023"; `None` when
/// the text does not have that shape or names no month.
pub fn map_date(polish_date: &str) -> (r: Option<Date>)
    requires
        date_text_safe(polish_date@),
    ensures
        match date_fields_spec(polish_date@) {
            Some(fields) => r matches Some(d) && d@ == fields,
            None => r is None,
        },
{
    match date_fields(polish_date) {
        Some((y, m, d)) => Date::from_ymd_opt(y, m, d),
        None => None,
    }
}

/// `html` with every `_` replaced by `x`, as pages are read before parsing.
pub open spec fn sanitize_spec(html: Seq<char>) -> Seq<char> {
    html.map_values(|c: char| if c == '_' { 'x' } else { c })
}

/// Sanitizing leaves no `_`, keeps the length, and changes nothing but the `_`s.
pub proof fn lemma_sanitize(html: Seq<char>)
    ensures
        sanitize_spec(html).len() == html.len(),
        !sanitize_spec(html).contains('_'),
        forall|i: int| 0 <= i < html.len() && html[i] != '_' ==> #[trigger] sanitize_spec(html)[i] == html[i],
{
}

/// Replaces every `_` of a fetched page by `x`.
pub fn sanitize_html(html: &str) -> (r: String)
    ensures
        r@ == sanitize_spec(html@),
{
    let chars = chars_of(html);
    let mut r = String::new();
    let mut i: usize = 0;
    while i < chars.len()
        invariant
            i <= chars@.len(),
            chars@ == html@,
            r@ == sanitize_spec(chars@.take(i as int)),
        decreases chars@.len() - i,
    {
        let c = chars[i];
        if c == '_' {
            push_char(&mut r, 'x');
        } else {
            push_char(&mut r, c);
        }
        assert(sanitize_spec(chars@.take(i + 1)) =~= sanitize_spec(chars@.take(i as int)).push(
            if c == '_' { 'x' } else { c },
        ));
        i = i + 1;
    }
    assert(chars@.take(i as int) =~= chars@);
    r
}

} // verus!
