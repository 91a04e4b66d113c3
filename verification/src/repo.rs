//! The repository-info record, the labeled lines it renders to, and the fixed
//! strings of the fetch boundary: the two request URLs, the two header
//! values, and the user-facing fetch-failure message.
use vstd::prelude::*;

use crate::render::LangStat;
use crate::text::{dec_str, pad_chars, pad_right};

verus! {

/// Metadata of one repository, as the remote API reports it. Optional fields
/// render as the empty string when absent.
pub struct RepositoryInfo {
    /// The repository's short name.
    pub name: String,
    /// The owner-qualified name.
    pub full_name: String,
    /// The free-text description, when one is set.
    pub description: Option<String>,
    /// The primary language, when one was detected.
    pub language: Option<String>,
    /// How many stars the repository has.
    pub stargazers_count: u32,
    /// The repository's size in kilobytes.
    pub size: u32,
    /// How many forks exist.
    pub forks: u32,
    /// How many issues are open.
    pub open_issues: u32,
    /// The name of the default branch.
    pub default_branch: String,
    /// When the repository was last updated, as the API's timestamp text.
    pub updated_at: String,
    /// The repository's web address.
    pub html_url: String,
}

/// A repository's metadata together with its language byte counts.
pub struct Repository {
    /// The metadata record.
    pub info: RepositoryInfo,
    /// Bytes of source per language.
    pub languages: Vec<LangStat>,
}

impl Repository {
    /// Pairs the two fetched pieces.
    pub fn from(info: RepositoryInfo, languages: Vec<LangStat>) -> (r: Self)
        ensures
            r.info == info,
            r.languages == languages,
    {
        Self { info, languages }
    }
}

/// The text of an optional field: the value when present, empty when absent.
pub open spec fn opt_chars(o: Option<String>) -> Seq<char> {
    match o {
        Some(s) => s@,
        None => Seq::empty(),
    }
}

/// The lines of the repository-info block: the name across the terminal
/// width, then one labeled line per field.
pub open spec fn info_lines_chars(info: RepositoryInfo, term_width: nat) -> Seq<Seq<char>> {
    seq![
        pad_chars(info.name@, term_width),
        "Full Name: "@ + info.full_name@,
        "Description: "@ + opt_chars(info.description),
        "Language: "@ + opt_chars(info.language),
        "Default branch: "@ + info.default_branch@,
        "Stars: "@ + dec_str(info.stargazers_count as nat),
        "Size: "@ + dec_str(info.size as nat),
        "Forks: "@ + dec_str(info.forks as nat),
        "Open issues: "@ + dec_str(info.open_issues as nat),
        "Last updated: "@ + info.updated_at@,
        "Link: "@ + info.html_url@,
    ]
}

/// A label followed by a text value.
fn labeled(label: &str, value: &str) -> (r: String)
    ensures
        r@ == label@ + value@,
{
    let mut s = String::from_str(label);
    s.append(value);
    s
}

/// A label followed by a number in decimal.
fn labeled_num(label: &str, value: u32) -> (r: String)
    ensures
        r@ == label@ + dec_str(value as nat),
{
    let mut s = String::from_str(label);
    let num = crate::text::u64_to_string(value as u64);
    s.append(num.as_str());
    s
}

/// A label followed by an optional value, absent rendering as empty.
fn labeled_opt(label: &str, value: &Option<String>) -> (r: String)
    ensures
        r@ == label@ + opt_chars(*value),
{
    let mut s = String::from_str(label);
    match value {
        Some(v) => {
            s.append(v.as_str());
        },
        None => {
            proof {
                assert(s@ =~= label@ + opt_chars(*value));
            }
        },
    }
    s
}

impl RepositoryInfo {
    /// The repository-info block, one string per line, as `info_lines_chars`
    /// says: the name padded across the terminal width, then each field on a
    /// labeled line, absent optional fields shown as empty.
    pub fn info_lines(&self, term_width: usize) -> (r: Vec<String>)
        ensures
            r@.len() == info_lines_chars(*self, term_width as nat).len(),
            forall|i: int|
                0 <= i < r@.len() ==> (#[trigger] r@[i])@ == info_lines_chars(
                    *self,
                    term_width as nat,
                )[i],
    {
        let mut out: Vec<String> = Vec::new();
        out.push(pad_right(self.name.as_str(), term_width));
        out.push(labeled("Full Name: ", self.full_name.as_str()));
        out.push(labeled_opt("Description: ", &self.description));
        out.push(labeled_opt("Language: ", &self.language));
        out.push(labeled("Default branch: ", self.default_branch.as_str()));
        out.push(labeled_num("Stars: ", self.stargazers_count));
        out.push(labeled_num("Size: ", self.size));
        out.push(labeled_num("Forks: ", self.forks));
        out.push(labeled_num("Open issues: ", self.open_issues));
        out.push(labeled("Last updated: ", self.updated_at.as_str()));
        out.push(labeled("Link: ", self.html_url.as_str()));
        out
    }
}

/// The address of the repository-info request for `repository`
/// (an owner-qualified name such as `owner/name`).
pub fn info_url(repository: &str) -> (r: String)
    ensures
        r@ == "https://api.github.com/repos/"@ + repository@,
{
    labeled("https://api.github.com/repos/", repository)
}

/// The address of the language-breakdown request for `repository`.
pub fn languages_url(repository: &str) -> (r: String)
    ensures
        r@ == "https://api.github.com/repos/"@ + repository@ + "/languages"@,
{
    let mut s = labeled("https://api.github.com/repos/", repository);
    s.append("/languages");
    s
}

/// The media type both requests are made with.
pub fn accept_header_value() -> (r: String)
    ensures
        r@ == "application/vnd.github+json"@,
{
    String::from_str("application/vnd.github+json")
}

/// The client identification both requests are made with.
pub fn user_agent_value() -> (r: String)
    ensures
        r@ == "silentdusk_repo_info"@,
{
    String::from_str("silentdusk_repo_info")
}

/// The message written to the error stream when a fetch fails, wrapping the
/// underlying error's text.
pub fn fetch_error_message(detail: &str) -> (r: String)
    ensures
        r@ == "Sorry, Can't find what you are looking for.\nError : "@ + detail@,
{
    labeled("Sorry, Can't find what you are looking for.\nError : ", detail)
}

} // verus!
