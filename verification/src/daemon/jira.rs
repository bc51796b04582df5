//! Jira boundary for the daemon, over `curl`.
//!
//! Off unless `jira_base_url` + `jira_email` + `jira_token` are configured. Credentials
//! travel to curl via stdin (`--config -`), never on the command line where any process
//! viewer could read them.
use crate::error::{is_config, is_invalid_data, MaestroError};
use crate::json::{
    json_parsed, list_in, list_view, member, parse_json, text_in, text_or, Json, JsonV,
};
use crate::text::{
    before_run, blank, chars_of, is_blank, join, join_texts, opt_view, part_of, replace_text,
    replaced, string_of, text_of, trim, trimmed, views,
};
use vstd::prelude::*;
use vstd::string::*;
use vstd::utf8::encode_utf8;

verus! {

/// Base URL of the Jira site, e.g. `https://yourorg.atlassian.net`.
pub const SETTING_JIRA_BASE_URL: &'static str = "jira_base_url";

/// The Atlassian account email the API token belongs to.
pub const SETTING_JIRA_EMAIL: &'static str = "jira_email";

/// An Atlassian API token (id.atlassian.com → Security → API tokens).
pub const SETTING_JIRA_TOKEN: &'static str = "jira_token";

/// Optional JQL override for what "my work" means.
pub const SETTING_JIRA_JQL: &'static str = "jira_jql";

pub const DEFAULT_JQL: &'static str = "assignee = currentUser() AND resolution = EMPTY AND statusCategory != Done ORDER BY updated DESC";

/// How much of an issue's description is kept, in characters.
pub const MAX_DESCRIPTION: usize = 4000;

/// How much of an error reply is shown, in characters.
pub const MAX_DETAIL: usize = 300;

#[derive(Debug)]
pub struct JiraConfig {
    pub base_url: String,
    pub email: String,
    pub token: String,
    pub jql: String,
}

#[derive(Debug)]
pub struct JiraIssue {
    pub key: String,
    pub summary: String,
    pub description: String,
    pub url: String,
}

#[verifier::ext_equal]
pub struct IssueV {
    pub key: Seq<char>,
    pub summary: Seq<char>,
    pub description: Seq<char>,
    pub url: Seq<char>,
}

impl View for JiraIssue {
    type V = IssueV;

    open spec fn view(&self) -> IssueV {
        IssueV {
            key: self.key@,
            summary: self.summary@,
            description: self.description@,
            url: self.url@,
        }
    }
}

pub open spec fn issue_views(s: Seq<JiraIssue>) -> Seq<IssueV> {
    s.map_values(|i: JiraIssue| i@)
}

// ---------------------------------------------------------------------------
// Configuration
// ---------------------------------------------------------------------------

/// Whether a setting is there and not blank.
pub open spec fn is_given(setting: Option<Seq<char>>) -> bool {
    match setting {
        Some(s) => !is_blank(s),
        None => false,
    }
}

pub fn given(setting: &Option<String>) -> (b: bool)
    ensures
        b == is_given(opt_view(*setting)),
{
    match setting {
        Some(s) => !blank(s.as_str()),
        None => false,
    }
}

/// The Jira credentials, when all three are configured.
pub fn jira_config(
    base_url: Option<&str>,
    email: Option<&str>,
    token: Option<&str>,
    jql: Option<&str>,
) -> (r: Option<JiraConfig>)
    ensures
        ({
            let all = base_url matches Some(b) && email matches Some(m) && token matches Some(t)
                && !is_blank(b@) && !is_blank(m@) && !is_blank(t@);
            &&& r is Some <==> all
            &&& r matches Some(c) ==> c.base_url@ == base_url->0@ && c.email@ == email->0@
                && c.token@ == token->0@ && c.jql@ == (match jql {
                Some(j) => if is_blank(j@) {
                    DEFAULT_JQL@
                } else {
                    j@
                },
                None => DEFAULT_JQL@,
            })
        }),
{
    match (base_url, email, token) {
        (Some(b), Some(m), Some(t)) => {
            if blank(b) || blank(m) || blank(t) {
                None
            } else {
                let query: String = match jql {
                    Some(j) => if blank(j) {
                        text_of(DEFAULT_JQL)
                    } else {
                        text_of(j)
                    },
                    None => text_of(DEFAULT_JQL),
                };
                Some(
                    JiraConfig {
                        base_url: text_of(b),
                        email: text_of(m),
                        token: text_of(t),
                        jql: query,
                    },
                )
            }
        },
        _ => None,
    }
}

// ---------------------------------------------------------------------------
// The request
// ---------------------------------------------------------------------------

/// Bytes that stand for themselves in a query string.
pub open spec fn is_plain_byte(b: u8) -> bool {
    65 <= b <= 90 || 97 <= b <= 122 || 48 <= b <= 57 || b == 45 || b == 95 || b == 46 || b == 126
}

pub open spec fn upper_hex(d: nat) -> char {
    if d == 10 {
        'A'
    } else if d == 11 {
        'B'
    } else if d == 12 {
        'C'
    } else if d == 13 {
        'D'
    } else if d == 14 {
        'E'
    } else if d == 15 {
        'F'
    } else {
        crate::text::digit(d)
    }
}

/// A byte in a query string.
pub open spec fn encoded_byte(b: u8) -> Seq<char> {
    if is_plain_byte(b) {
        seq![b as char]
    } else {
        seq!['%', upper_hex((b / 16) as nat), upper_hex((b % 16) as nat)]
    }
}

pub open spec fn encoded_bytes(bytes: Seq<u8>) -> Seq<char>
    decreases bytes.len(),
{
    if bytes.len() == 0 {
        seq![]
    } else {
        encoded_bytes(bytes.drop_last()) + encoded_byte(bytes.last())
    }
}

/// A text in a query string, percent-encoded.
pub open spec fn url_encoded(s: Seq<char>) -> Seq<char> {
    encoded_bytes(encode_utf8(s))
}

fn hex_upper(d: u8) -> (c: char)
    requires
        d < 16,
    ensures
        c == upper_hex(d as nat),
{
    match d {
        10 => 'A',
        11 => 'B',
        12 => 'C',
        13 => 'D',
        14 => 'E',
        15 => 'F',
        _ => crate::text::digit_char(d as u64),
    }
}

/// Minimal percent-encoding for a JQL query-string value.
pub fn urlencode(value: &str) -> (out: String)
    ensures
        out@ == url_encoded(value@),
{
    let bytes: &[u8] = value.as_bytes();
    let mut out: String = String::new();
    let mut i: usize = 0;
    assert(out@ =~= encoded_bytes(bytes@.take(0)));
    while i < bytes.len()
        invariant
            i <= bytes@.len(),
            out@ == encoded_bytes(bytes@.take(i as int)),
        decreases bytes@.len() - i,
    {
        assert(bytes@.take(i + 1).drop_last() =~= bytes@.take(i as int));
        let ghost before = out@;
        let b: u8 = bytes[i];
        if (65 <= b && b <= 90) || (97 <= b && b <= 122) || (48 <= b && b <= 57) || b == 45 || b
            == 95 || b == 46 || b == 126 {
            out.push(b as char);
        } else {
            out.push('%');
            out.push(hex_upper(b / 16));
            out.push(hex_upper(b % 16));
        }
        assert(out@ =~= before + encoded_byte(b));
        i += 1;
    }
    assert(bytes@.take(i as int) =~= bytes@);
    out
}

/// `url` without the slashes at its end.
pub open spec fn site_of(url: Seq<char>) -> Seq<char> {
    url.subrange(0, before_run(url, '/', url.len() as int))
}

fn site(url: &str) -> (r: String)
    ensures
        r@ == site_of(url@),
{
    let s: Vec<char> = chars_of(url);
    let mut j: usize = s.len();
    while j > 0 && s[j - 1] == '/'
        invariant
            j <= s@.len(),
            s@ == url@,
            before_run(s@, '/', s@.len() as int) == before_run(s@, '/', j as int),
        decreases j,
    {
        j -= 1;
    }
    part_of(s.as_slice(), 0, j)
}

/// How the daemon talks to Jira: the request and what the reply says. Running curl is left
/// to the caller.
#[derive(Debug)]
pub struct JiraCli {}

impl JiraCli {
    /// The URL that asks for the issues matching the configured JQL.
    pub fn search_url(config: &JiraConfig) -> (r: String)
        ensures
            r@ == site_of(config.base_url@)
                + "/rest/api/2/search?maxResults=50&fields=summary,description&jql="@
                + url_encoded(config.jql@),
    {
        site(config.base_url.as_str()).concat(
            "/rest/api/2/search?maxResults=50&fields=summary,description&jql=",
        ).concat(urlencode(config.jql.as_str()).as_str())
    }

    /// How curl is asked for `url`; it takes the credentials from its standard input.
    pub fn curl_args(url: &str) -> (r: Vec<String>)
        ensures
            views(r@) == seq![
                "-sS"@,
                "--fail-with-body"@,
                "--max-time"@,
                "20"@,
                "-H"@,
                "Accept: application/json"@,
                "--config"@,
                "-"@,
                url@,
            ],
    {
        let mut args: Vec<String> = Vec::new();
        args.push(text_of("-sS"));
        args.push(text_of("--fail-with-body"));
        args.push(text_of("--max-time"));
        args.push(text_of("20"));
        args.push(text_of("-H"));
        args.push(text_of("Accept: application/json"));
        args.push(text_of("--config"));
        args.push(text_of("-"));
        args.push(text_of(url));
        assert(views(args@) =~= seq![
            "-sS"@,
            "--fail-with-body"@,
            "--max-time"@,
            "20"@,
            "-H"@,
            "Accept: application/json"@,
            "--config"@,
            "-"@,
            url@,
        ]);
        args
    }

    /// The line that hands curl the credentials: `user = "email:token"`, quoted so special
    /// characters survive.
    pub fn credentials_line(config: &JiraConfig) -> (r: String)
        ensures
            r@ == "user = \""@ + replaced(config.email@, seq!['"'], seq![]) + ":"@ + replaced(
                config.token@,
                seq!['"'],
                seq![],
            ) + "\"\n"@,
    {
        let quote: Vec<char> = vec!['"'];
        let none: Vec<char> = Vec::new();
        assert(quote@ =~= seq!['"']);
        assert(none@ =~= seq![]);
        let email: Vec<char> = chars_of(config.email.as_str());
        let token: Vec<char> = chars_of(config.token.as_str());
        let e: Vec<char> = replace_text(email.as_slice(), quote.as_slice(), none.as_slice());
        let t: Vec<char> = replace_text(token.as_slice(), quote.as_slice(), none.as_slice());
        text_of("user = \"").concat(string_of(e.as_slice()).as_str()).concat(":").concat(
            string_of(t.as_slice()).as_str(),
        ).concat("\"\n")
    }

    /// The error of a request that failed. 4xx bodies land on stdout; they are preferred,
    /// as they carry Jira's actual error message.
    pub fn request_failed(stdout: &str, stderr: &str) -> (e: MaestroError)
        ensures
            is_config(
                e,
                "Jira request failed: "@ + (if is_blank(stdout@) {
                    trim(stderr@)
                } else {
                    shortened(trim(stdout@), MAX_DETAIL as int)
                }),
            ),
    {
        let out: Vec<char> = chars_of(stdout);
        let err: Vec<char> = chars_of(stderr);
        let o: &[char] = trimmed(out.as_slice());
        let detail: String = if o.len() == 0 {
            string_of(trimmed(err.as_slice()))
        } else {
            shorten(o, MAX_DETAIL)
        };
        MaestroError::Config { message: text_of("Jira request failed: ").concat(detail.as_str()) }
    }

    /// The issues in a reply, newest-updated first.
    pub fn my_issues(config: &JiraConfig, out: &str) -> (r: Result<Vec<JiraIssue>, MaestroError>)
        ensures
            match json_parsed(out@) {
                Ok(v) => match search_error(v) {
                    Some(message) => r matches Err(e) && is_config(e, message),
                    None => r matches Ok(l) && issue_views(l@) == found_issues(
                        v,
                        site_of(config.base_url@),
                    ),
                },
                Err(err) => r matches Err(e) && is_invalid_data(
                    e,
                    "unexpected Jira response: "@ + err,
                ),
            },
    {
        match parse_json(out) {
            Ok(v) => JiraCli::read_issues(config, &v),
            Err(err) => Err(
                MaestroError::InvalidData {
                    message: text_of("unexpected Jira response: ").concat(err.as_str()),
                },
            ),
        }
    }

    /// The issues in a reply that was parsed.
    pub fn read_issues(config: &JiraConfig, v: &Json) -> (r: Result<Vec<JiraIssue>, MaestroError>)
        ensures
            match search_error(v@) {
                Some(message) => r matches Err(e) && is_config(e, message),
                None => r matches Ok(l) && issue_views(l@) == found_issues(
                    v@,
                    site_of(config.base_url@),
                ),
            },
    {
        match v.list_under("errorMessages") {
            Some(messages) => {
                let texts: Vec<String> = only_texts(messages);
                return Err(
                    MaestroError::Config {
                        message: text_of("Jira rejected the query: ").concat(
                            join_texts(&texts, "; ").as_str(),
                        ),
                    },
                );
            },
            None => {},
        }
        let base: String = site(config.base_url.as_str());
        let mut r: Vec<JiraIssue> = Vec::new();
        assert(issue_views(r@) =~= seq![]);
        match v.list_under("issues") {
            Some(items) => {
                let ghost iv = list_view(items@);
                let mut i: usize = 0;
                assert(iv.take(0) =~= seq![]);
                while i < items.len()
                    invariant
                        i <= items@.len(),
                        iv == list_view(items@),
                        issue_views(r@) == issues_of(iv.take(i as int), base@),
                    decreases items@.len() - i,
                {
                    let ghost done = issue_views(r@);
                    assert(iv.take(i + 1).drop_last() =~= iv.take(i as int));
                    assert(iv.take(i + 1).last() == items@[i as int]@);
                    match read_issue(&items[i], base.as_str()) {
                        Some(issue) => {
                            let ghost v = issue@;
                            r.push(issue);
                            assert(issue_views(r@) =~= done.push(v));
                        },
                        None => {},
                    }
                    i += 1;
                }
                assert(iv.take(i as int) =~= iv);
            },
            None => {},
        }
        Ok(r)
    }
}

/// At most the first `n` characters of `s`.
pub open spec fn shortened(s: Seq<char>, n: int) -> Seq<char> {
    if s.len() <= n {
        s
    } else {
        s.subrange(0, n)
    }
}

fn shorten(s: &[char], n: usize) -> (r: String)
    ensures
        r@ == shortened(s@, n as int),
{
    if s.len() <= n {
        string_of(s)
    } else {
        part_of(s, 0, n)
    }
}

pub open spec fn texts_among(items: Seq<JsonV>) -> Seq<Seq<char>>
    decreases items.len(),
{
    if items.len() == 0 {
        seq![]
    } else {
        match text_in(Some(items.last())) {
            Some(s) => texts_among(items.drop_last()).push(s),
            None => texts_among(items.drop_last()),
        }
    }
}

/// What Jira rejected a query with, if it did.
pub open spec fn search_error(v: JsonV) -> Option<Seq<char>> {
    match list_in(member(v, "errorMessages"@)) {
        Some(l) => Some("Jira rejected the query: "@ + join(texts_among(l), "; "@)),
        None => None,
    }
}

/// The issue that a value describes; nothing without a key and fields.
pub open spec fn issue_of(v: JsonV, site: Seq<char>) -> Option<IssueV> {
    match (text_in(member(v, "key"@)), member(v, "fields"@)) {
        (Some(key), Some(fields)) => Some(
            IssueV {
                key,
                summary: text_or(text_in(member(fields, "summary"@)), ""@),
                description: shortened(
                    text_or(text_in(member(fields, "description"@)), ""@),
                    MAX_DESCRIPTION as int,
                ),
                url: site + "/browse/"@ + key,
            },
        ),
        _ => None,
    }
}

pub open spec fn issues_of(items: Seq<JsonV>, site: Seq<char>) -> Seq<IssueV>
    decreases items.len(),
{
    if items.len() == 0 {
        seq![]
    } else {
        match issue_of(items.last(), site) {
            Some(i) => issues_of(items.drop_last(), site).push(i),
            None => issues_of(items.drop_last(), site),
        }
    }
}

pub open spec fn found_issues(v: JsonV, site: Seq<char>) -> Seq<IssueV> {
    match list_in(member(v, "issues"@)) {
        Some(l) => issues_of(l, site),
        None => seq![],
    }
}

fn only_texts(items: &Vec<Json>) -> (r: Vec<String>)
    ensures
        views(r@) == texts_among(list_view(items@)),
{
    let ghost iv = list_view(items@);
    let mut r: Vec<String> = Vec::new();
    let mut i: usize = 0;
    assert(views(r@) =~= texts_among(iv.take(0)));
    while i < items.len()
        invariant
            i <= items@.len(),
            iv == list_view(items@),
            views(r@) == texts_among(iv.take(i as int)),
        decreases items@.len() - i,
    {
        let ghost done = views(r@);
        assert(iv.take(i + 1).drop_last() =~= iv.take(i as int));
        assert(iv.take(i + 1).last() == items@[i as int]@);
        match items[i].as_str() {
            Some(s) => {
                r.push(text_of(s));
                assert(views(r@) =~= done.push(s@));
            },
            None => {},
        }
        i += 1;
    }
    assert(iv.take(i as int) =~= iv);
    r
}

fn read_issue(v: &Json, base: &str) -> (r: Option<JiraIssue>)
    ensures
        match r {
            Some(i) => issue_of(v@, base@) == Some(i@),
            None => issue_of(v@, base@) is None,
        },
{
    let key: String = match v.text_under("key") {
        Some(s) => text_of(s),
        None => return None,
    };
    match v.get("fields") {
        Some(fields) => {
            let d: String = fields.text_or_else("description", "");
            let dv: Vec<char> = chars_of(d.as_str());
            Some(
                JiraIssue {
                    url: text_of(base).concat("/browse/").concat(key.as_str()),
                    summary: fields.text_or_else("summary", ""),
                    description: shorten(dv.as_slice(), MAX_DESCRIPTION),
                    key,
                },
            )
        },
        None => None,
    }
}

} // verus!
