//! The computations behind the extra template filters: a URL taken apart,
//! a timestamp read into its fields, and timestamps and dates re-written in
//! another strftime format.

use vstd::prelude::*;
use chrono::format::strftime::StrftimeItems;
use chrono::{Datelike, NaiveDate, NaiveDateTime, Timelike};
use url::Url;

verus! {

#[verifier::external_type_specification]
#[verifier::external_body]
pub struct ExUrl(url::Url);

#[verifier::external_type_specification]
#[verifier::external_body]
pub struct ExUrlParseError(url::ParseError);

#[verifier::external_type_specification]
#[verifier::external_body]
pub struct ExNaiveDateTime(chrono::NaiveDateTime);

#[verifier::external_type_specification]
#[verifier::external_body]
pub struct ExNaiveDate(chrono::NaiveDate);

#[verifier::external_type_specification]
#[verifier::external_body]
pub struct ExChronoParseError(chrono::ParseError);

// ---------------------------------------------------------------------
// URLs

/// The parts of a URL, as `url::Url`'s accessors give them.
#[derive(Clone, Debug, PartialEq, Eq)]
pub struct UrlParts {
    pub authority: String,
    pub host: Option<String>,
    pub domain: Option<String>,
    pub password: Option<String>,
    pub username: String,
    pub scheme: String,
    pub port: Option<u16>,
    pub path: String,
    pub path_parts: Option<Vec<String>>,
    pub fragment: Option<String>,
    pub query: Option<String>,
    pub query_pairs: Vec<(String, String)>,
}

/// The mathematical value of [`UrlParts`].
pub struct UrlPartsV {
    pub authority: Seq<char>,
    pub host: Option<Seq<char>>,
    pub domain: Option<Seq<char>>,
    pub password: Option<Seq<char>>,
    pub username: Seq<char>,
    pub scheme: Seq<char>,
    pub port: Option<u16>,
    pub path: Seq<char>,
    pub path_parts: Option<Seq<Seq<char>>>,
    pub fragment: Option<Seq<char>>,
    pub query: Option<Seq<char>>,
    pub query_pairs: Seq<(Seq<char>, Seq<char>)>,
}

/// The characters of an optional string.
pub open spec fn opt_text(o: Option<String>) -> Option<Seq<char>> {
    match o {
        Some(s) => Some(s@),
        None => None,
    }
}

/// The characters of each string of a list.
pub open spec fn texts(v: Seq<String>) -> Seq<Seq<char>> {
    Seq::new(v.len(), |i: int| v[i]@)
}

/// The characters of an optional list of strings.
pub open spec fn opt_texts(o: Option<Vec<String>>) -> Option<Seq<Seq<char>>> {
    match o {
        Some(v) => Some(texts(v@)),
        None => None,
    }
}

/// The characters of each pair of a list.
pub open spec fn text_pairs(v: Seq<(String, String)>) -> Seq<(Seq<char>, Seq<char>)> {
    Seq::new(v.len(), |i: int| (v[i].0@, v[i].1@))
}

impl View for UrlParts {
    type V = UrlPartsV;

    open spec fn view(&self) -> UrlPartsV {
        UrlPartsV {
            authority: self.authority@,
            host: opt_text(self.host),
            domain: opt_text(self.domain),
            password: opt_text(self.password),
            username: self.username@,
            scheme: self.scheme@,
            port: self.port,
            path: self.path@,
            path_parts: opt_texts(self.path_parts),
            fragment: opt_text(self.fragment),
            query: opt_text(self.query),
            query_pairs: text_pairs(self.query_pairs@),
        }
    }
}

/// What `url::Url::parse` makes of a text: the parts of the URL, or `None`
/// when it is refused.
pub uninterp spec fn url_parse(input: Seq<char>) -> Option<UrlPartsV>;

/// Why a URL could not be taken apart.
#[derive(Debug)]
pub enum UrlError {
    /// `url::Url::parse` refused the text.
    Invalid(url::ParseError),
}

/// A parsed URL with the text it was parsed from.
pub struct ParsedUrl {
    url: Url,
    input: String,
}

impl View for ParsedUrl {
    type V = Seq<char>;

    closed spec fn view(&self) -> Seq<char> {
        self.input@
    }
}

/// The parts of a URL about who serves it.
struct UrlAddress {
    authority: String,
    host: Option<String>,
    domain: Option<String>,
    password: Option<String>,
    username: String,
    scheme: String,
    port: Option<u16>,
}

/// The parts of a URL about what it names.
struct UrlResource {
    path: String,
    path_parts: Option<Vec<String>>,
    fragment: Option<String>,
    query: Option<String>,
    query_pairs: Vec<(String, String)>,
}

/// `url::Url::parse`, the result kept with the text it was parsed from.
#[verifier::external_body]
fn parse_url(input: String) -> (r: Result<ParsedUrl, url::ParseError>)
    ensures
        r is Ok == url_parse(input@) is Some,
        r matches Ok(p) ==> p@ == input@,
{
    let url = Url::parse(&input)?;
    Ok(ParsedUrl { url, input })
}

/// `authority`, `host_str`, `domain`, `password`, `username`, `scheme` and
/// `port` of a parsed URL.
#[verifier::external_body]
fn url_address(p: &ParsedUrl) -> (r: UrlAddress)
    ensures
        r.authority@ == url_parse(p@)->0.authority,
        opt_text(r.host) == url_parse(p@)->0.host,
        opt_text(r.domain) == url_parse(p@)->0.domain,
        opt_text(r.password) == url_parse(p@)->0.password,
        r.username@ == url_parse(p@)->0.username,
        r.scheme@ == url_parse(p@)->0.scheme,
        r.port == url_parse(p@)->0.port,
{
    let u = &p.url;
    UrlAddress {
        authority: u.authority().to_owned(),
        host: u.host_str().map(String::from),
        domain: u.domain().map(String::from),
        password: u.password().map(String::from),
        username: u.username().to_owned(),
        scheme: u.scheme().to_owned(),
        port: u.port(),
    }
}

/// `path`, `path_segments`, `fragment`, `query` and `query_pairs` of a
/// parsed URL.
#[verifier::external_body]
fn url_resource(p: &ParsedUrl) -> (r: UrlResource)
    ensures
        r.path@ == url_parse(p@)->0.path,
        opt_texts(r.path_parts) == url_parse(p@)->0.path_parts,
        opt_text(r.fragment) == url_parse(p@)->0.fragment,
        opt_text(r.query) == url_parse(p@)->0.query,
        text_pairs(r.query_pairs@) == url_parse(p@)->0.query_pairs,
{
    let u = &p.url;
    UrlResource {
        path: u.path().to_owned(),
        path_parts: u.path_segments().map(|s| s.map(String::from).collect()),
        fragment: u.fragment().map(String::from),
        query: u.query().map(String::from),
        query_pairs: u.query_pairs().into_owned().collect(),
    }
}

/// Takes a URL apart; a text that is not a URL is an error.
pub fn url_parts(input: &str) -> (r: Result<UrlParts, UrlError>)
    ensures
        r is Ok == url_parse(input@) is Some,
        r matches Ok(p) ==> Some(p@) == url_parse(input@),
{
    match parse_url(input.to_owned()) {
        Err(e) => Err(UrlError::Invalid(e)),
        Ok(p) => {
            let a = url_address(&p);
            let b = url_resource(&p);
            let parts = UrlParts {
                authority: a.authority,
                host: a.host,
                domain: a.domain,
                password: a.password,
                username: a.username,
                scheme: a.scheme,
                port: a.port,
                path: b.path,
                path_parts: b.path_parts,
                fragment: b.fragment,
                query: b.query,
                query_pairs: b.query_pairs,
            };
            Ok(parts)
        },
    }
}

// ---------------------------------------------------------------------
// Timestamps and dates

/// The fields of a timestamp.
#[derive(Clone, Copy, Debug, PartialEq, Eq)]
pub struct DateTimeFields {
    pub year: i32,
    pub month: u32,
    pub day: u32,
    pub hour: u32,
    pub minute: u32,
    pub second: u32,
    pub nanos: u32,
}

/// Why a timestamp or a date could not be read or re-written.
#[derive(Debug)]
pub enum DateError {
    /// The format to read with is not a valid strftime string.
    BadParseFormat(chrono::ParseError),
    /// The format to write with is not a valid strftime string.
    BadOutputFormat(chrono::ParseError),
    /// The text does not follow the format to read with.
    Unparsed(chrono::ParseError),
    /// Writing in the output format failed.
    WriteFailed,
}

/// Whether `StrftimeItems::new_lenient(fmt).parse()` accepts a format.
pub uninterp spec fn strftime_valid(fmt: Seq<char>) -> bool;

/// The fields of the timestamp `NaiveDateTime::parse_from_str` reads from
/// `input` with `parse`, or `None` when it refuses it.
pub uninterp spec fn datetime_fields(input: Seq<char>, parse: Seq<char>) -> Option<DateTimeFields>;

/// The text of the timestamp read from `input` with `parse`, written with
/// `format`, or `None` when writing fails.
pub uninterp spec fn datetime_written(input: Seq<char>, parse: Seq<char>, format: Seq<char>) -> Option<Seq<char>>;

/// Whether `NaiveDate::parse_from_str` reads a date from `input` with
/// `parse`.
pub uninterp spec fn date_parses(input: Seq<char>, parse: Seq<char>) -> bool;

/// The text of the date read from `input` with `parse`, written with
/// `format`, or `None` when writing fails.
pub uninterp spec fn date_written(input: Seq<char>, parse: Seq<char>, format: Seq<char>) -> Option<Seq<char>>;

/// A timestamp with the text and the format it was read from.
pub struct ParsedDateTime {
    dt: NaiveDateTime,
    input: String,
    parse: String,
}

impl View for ParsedDateTime {
    type V = (Seq<char>, Seq<char>);

    closed spec fn view(&self) -> (Seq<char>, Seq<char>) {
        (self.input@, self.parse@)
    }
}

/// A date with the text and the format it was read from.
pub struct ParsedDate {
    date: NaiveDate,
    input: String,
    parse: String,
}

impl View for ParsedDate {
    type V = (Seq<char>, Seq<char>);

    closed spec fn view(&self) -> (Seq<char>, Seq<char>) {
        (self.input@, self.parse@)
    }
}

/// `StrftimeItems::new_lenient(fmt).parse()`: whether a format is a valid
/// strftime string.
#[verifier::external_body]
fn check_strftime(fmt: &str) -> (r: Result<(), chrono::ParseError>)
    ensures
        r is Ok == strftime_valid(fmt@),
{
    match StrftimeItems::new_lenient(fmt).parse() {
        Ok(_) => Ok(()),
        Err(e) => Err(e),
    }
}

/// `NaiveDateTime::parse_from_str`, the result kept with its text and
/// format.
#[verifier::external_body]
fn read_datetime(input: String, parse: String) -> (r: Result<ParsedDateTime, chrono::ParseError>)
    ensures
        r is Ok == datetime_fields(input@, parse@) is Some,
        r matches Ok(p) ==> p@ == (input@, parse@),
{
    let dt = NaiveDateTime::parse_from_str(&input, &parse)?;
    Ok(ParsedDateTime { dt, input, parse })
}

/// `year`, `month`, `day`, `hour`, `minute`, `second` and `nanosecond` of
/// a timestamp.
#[verifier::external_body]
fn datetime_fields_of(p: &ParsedDateTime) -> (r: DateTimeFields)
    ensures
        datetime_fields(p@.0, p@.1) == Some(r),
{
    let dt = &p.dt;
    DateTimeFields {
        year: dt.year(),
        month: dt.month(),
        day: dt.day(),
        hour: dt.hour(),
        minute: dt.minute(),
        second: dt.second(),
        nanos: dt.nanosecond(),
    }
}

/// `NaiveDateTime::format(format).write_to` into a new string.
#[verifier::external_body]
fn write_datetime(p: &ParsedDateTime, format: &str) -> (r: Option<String>)
    ensures
        opt_text(r) == datetime_written(p@.0, p@.1, format@),
{
    let mut s = String::new();
    match p.dt.format(format).write_to(&mut s) {
        Ok(()) => Some(s),
        Err(_) => None,
    }
}

/// `NaiveDate::parse_from_str`, the result kept with its text and format.
#[verifier::external_body]
fn read_date(input: String, parse: String) -> (r: Result<ParsedDate, chrono::ParseError>)
    ensures
        r is Ok == date_parses(input@, parse@),
        r matches Ok(p) ==> p@ == (input@, parse@),
{
    let date = NaiveDate::parse_from_str(&input, &parse)?;
    Ok(ParsedDate { date, input, parse })
}

/// `NaiveDate::format(format).write_to` into a new string.
#[verifier::external_body]
fn write_date(p: &ParsedDate, format: &str) -> (r: Option<String>)
    ensures
        opt_text(r) == date_written(p@.0, p@.1, format@),
{
    let mut s = String::new();
    match p.date.format(format).write_to(&mut s) {
        Ok(()) => Some(s),
        Err(_) => None,
    }
}

/// Reads a timestamp into its fields. The format is checked first.
pub fn parse_datetime(input: &str, parse: &str) -> (r: Result<DateTimeFields, DateError>)
    ensures
        !strftime_valid(parse@) ==> r matches Err(DateError::BadParseFormat(_)),
        strftime_valid(parse@) ==> (r is Ok == datetime_fields(input@, parse@) is Some),
        strftime_valid(parse@) && datetime_fields(input@, parse@) is None ==> r matches Err(
            DateError::Unparsed(_),
        ),
        r matches Ok(f) ==> datetime_fields(input@, parse@) == Some(f),
{
    if let Err(e) = check_strftime(parse) {
        return Err(DateError::BadParseFormat(e));
    }
    match read_datetime(input.to_owned(), parse.to_owned()) {
        Err(e) => Err(DateError::Unparsed(e)),
        Ok(p) => Ok(datetime_fields_of(&p)),
    }
}

/// Re-writes a timestamp read with `parse` in `format`. The reading format
/// is checked first, then the writing one, then the text is read.
pub fn reformat_datetime(input: &str, parse: &str, format: &str) -> (r: Result<String, DateError>)
    ensures
        !strftime_valid(parse@) ==> r matches Err(DateError::BadParseFormat(_)),
        strftime_valid(parse@) && !strftime_valid(format@) ==> r matches Err(
            DateError::BadOutputFormat(_),
        ),
        strftime_valid(parse@) && strftime_valid(format@) && datetime_fields(input@, parse@) is None
            ==> r matches Err(DateError::Unparsed(_)),
        strftime_valid(parse@) && strftime_valid(format@) && datetime_fields(input@, parse@) is Some
            ==> match datetime_written(input@, parse@, format@) {
            Some(s) => r matches Ok(t) && t@ == s,
            None => r matches Err(DateError::WriteFailed),
        },
{
    if let Err(e) = check_strftime(parse) {
        return Err(DateError::BadParseFormat(e));
    }
    if let Err(e) = check_strftime(format) {
        return Err(DateError::BadOutputFormat(e));
    }
    match read_datetime(input.to_owned(), parse.to_owned()) {
        Err(e) => Err(DateError::Unparsed(e)),
        Ok(p) => match write_datetime(&p, format) {
            Some(s) => Ok(s),
            None => Err(DateError::WriteFailed),
        },
    }
}

/// Re-writes a date read with `parse` in `format`.
pub fn reformat_date(input: &str, parse: &str, format: &str) -> (r: Result<String, DateError>)
    ensures
        !date_parses(input@, parse@) ==> r matches Err(DateError::Unparsed(_)),
        date_parses(input@, parse@) ==> match date_written(input@, parse@, format@) {
            Some(s) => r matches Ok(t) && t@ == s,
            None => r matches Err(DateError::WriteFailed),
        },
{
    match read_date(input.to_owned(), parse.to_owned()) {
        Err(e) => Err(DateError::Unparsed(e)),
        Ok(p) => match write_date(&p, format) {
            Some(s) => Ok(s),
            None => Err(DateError::WriteFailed),
        },
    }
}

} // verus!
