//! Output formats of a changelog, and what the writers of both formats
//! share: the release date and the writer trait.
mod json_writer;
mod md_writer;

pub use self::json_writer::{json_quote, JsonWriter};
pub use self::md_writer::MarkdownWriter;
use crate::clog::Clog;
use crate::error::Error;
use crate::sectionmap::SectionMap;
use crate::text::{chars_of, equal_folded, matches_folded, push_char};
use vstd::prelude::*;
use vstd::string::*;

verus! {

/// A writer of changelogs in some format. `write_changelog()` takes the
/// options and the grouping of the commits, and appends the changelog to
/// what the writer holds.
pub trait FormatWriter {
    /// Writes a changelog from a given `SectionMap`.
    fn write_changelog(&mut self, options: &Clog, section_map: &SectionMap);
}

/// A calendar date in the proleptic Gregorian calendar.
#[derive(Debug, Copy, Clone, PartialEq, Eq, Structural)]
pub struct ReleaseDate {
    pub year: i32,
    pub month: u8,
    pub day: u8,
}

/// Relies on `time::OffsetDateTime::now_utc` and its `year`, `month` and
/// `day`: today's date in UTC. The month is the `Month` enum's number, from
/// 1 to 12, and the day is within 1 to 31.
#[verifier::external_body]
fn today_utc() -> (r: ReleaseDate)
    ensures
        1 <= r.month <= 12,
        1 <= r.day <= 31,
{
    let now = time::OffsetDateTime::now_utc();
    ReleaseDate { year: now.year(), month: u8::from(now.month()), day: now.day() }
}

/// The decimal digit `d`.
pub open spec fn digit_char(d: int) -> char {
    "0123456789"@[d]
}

/// The decimal digits of `n`.
pub open spec fn decimal(n: nat) -> Seq<char>
    decreases n,
{
    if n < 10 {
        seq![digit_char(n as int)]
    } else {
        decimal(n / 10) + seq![digit_char(n as int % 10)]
    }
}

/// The zeros that pad the digits of `n` to four.
pub open spec fn year_padding(n: nat) -> Seq<char> {
    if n < 10 {
        "000"@
    } else if n < 100 {
        "00"@
    } else if n < 1000 {
        "0"@
    } else {
        Seq::empty()
    }
}

/// Two decimal digits of `n`.
pub open spec fn two_digits(n: int) -> Seq<char> {
    seq![digit_char(n / 10 % 10), digit_char(n % 10)]
}

/// A date as `YYYY-MM-DD`: the year with at least four digits and a sign if
/// it is negative, the month and the day with two.
pub open spec fn date_text(d: ReleaseDate) -> Seq<char> {
    let y: int = d.year as int;
    let a: nat = if y < 0 {
        (-y) as nat
    } else {
        y as nat
    };
    (if y < 0 {
        "-"@
    } else {
        Seq::empty()
    }) + year_padding(a) + decimal(a) + "-"@ + two_digits(d.month as int) + "-"@ + two_digits(
        d.day as int,
    )
}

fn push_decimal(out: &mut String, digits: &Vec<char>, n: u32)
    requires
        digits@ == "0123456789"@,
    ensures
        final(out)@ == old(out)@ + decimal(n as nat),
    decreases n,
{
    proof {
        reveal_strlit("0123456789");
    }
    if n >= 10 {
        push_decimal(out, digits, n / 10);
    }
    push_char(out, digits[(n % 10) as usize]);
    assert(final(out)@ =~= old(out)@ + decimal(n as nat));
}

impl ReleaseDate {
    /// Today's date in UTC.
    pub fn today() -> (r: ReleaseDate)
        ensures
            1 <= r.month <= 12,
            1 <= r.day <= 31,
    {
        today_utc()
    }

    /// The date as `YYYY-MM-DD`.
    pub fn text(&self) -> (r: String)
        ensures
            r@ == date_text(*self),
    {
        proof {
            reveal_strlit("0123456789");
        }
        let digits = chars_of("0123456789");
        let mut r = String::new();
        let a: u32 = if self.year < 0 {
            r.append("-");
            (-(self.year as i64)) as u32
        } else {
            self.year as u32
        };
        if a < 10 {
            r.append("000");
        } else if a < 100 {
            r.append("00");
        } else if a < 1000 {
            r.append("0");
        }
        push_decimal(&mut r, &digits, a);
        r.append("-");
        push_char(&mut r, digits[(self.month / 10 % 10) as usize]);
        push_char(&mut r, digits[(self.month % 10) as usize]);
        r.append("-");
        push_char(&mut r, digits[(self.day / 10 % 10) as usize]);
        push_char(&mut r, digits[(self.day % 10) as usize]);
        assert(r@ =~= date_text(*self));
        r
    }
}

/// The format a changelog is written in. Defaults to Markdown.
#[derive(Debug, Copy, Clone, PartialEq, Eq, Structural)]
pub enum ChangelogFormat {
    Json,
    Markdown,
}

impl Default for ChangelogFormat {
    fn default() -> (r: Self)
        ensures
            r == ChangelogFormat::Markdown,
    {
        ChangelogFormat::Markdown
    }
}

/// The format that `name` names, in any ASCII case.
pub open spec fn format_named(name: Seq<char>) -> Option<ChangelogFormat> {
    if equal_folded(name, "json"@, "JSON"@) {
        Some(ChangelogFormat::Json)
    } else if equal_folded(name, "markdown"@, "MARKDOWN"@) {
        Some(ChangelogFormat::Markdown)
    } else {
        None
    }
}

/// The name of a format.
pub open spec fn format_name(f: ChangelogFormat) -> Seq<char> {
    match f {
        ChangelogFormat::Json => "Json"@,
        ChangelogFormat::Markdown => "Markdown"@,
    }
}

impl ChangelogFormat {
    /// The format that `name` names, in any ASCII case.
    pub fn from_name(name: &str) -> (r: Option<ChangelogFormat>)
        ensures
            r == format_named(name@),
    {
        proof {
            reveal_strlit("json");
            reveal_strlit("JSON");
            reveal_strlit("markdown");
            reveal_strlit("MARKDOWN");
        }
        let cs = chars_of(name);
        if matches_folded(&cs, &chars_of("json"), &chars_of("JSON")) {
            Some(ChangelogFormat::Json)
        } else if matches_folded(&cs, &chars_of("markdown"), &chars_of("MARKDOWN")) {
            Some(ChangelogFormat::Markdown)
        } else {
            None
        }
    }

    /// The name of this format.
    pub fn name(&self) -> (r: String)
        ensures
            r@ == format_name(*self),
    {
        match self {
            ChangelogFormat::Json => "Json".to_owned(),
            ChangelogFormat::Markdown => "Markdown".to_owned(),
        }
    }
}

impl std::str::FromStr for ChangelogFormat {
    type Err = Error;

    fn from_str(s: &str) -> Result<ChangelogFormat, Error> {
        match ChangelogFormat::from_name(s) {
            Some(f) => Ok(f),
            None => Err(Error::ChangelogFormat(s.to_owned())),
        }
    }
}

} // verus!
