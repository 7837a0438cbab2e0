//! Pull requests: their URLs, what GitHub answers about them, and cloning.

use vstd::prelude::*;

use crate::text::{
    concat, contains_text, debug_of, decimal, decimal_of, find_char, from_chars, head_of, holds_text, tail_of, lemma_decimal_reads_back,
    lemma_upto, lemma_upto_prefix, number_of, parse_number, quoted, starts_with, to_chars, trim, trim_of, upto,
    has_prefix, NumberError,
};

verus! {

/// The pull request a URL names.
#[derive(Debug, PartialEq, Eq)]
pub struct PrUrl {
    pub owner: String,
    pub repo: String,
    pub number: u64,
}

impl Clone for PrUrl {
    fn clone(&self) -> (copy: Self)
        ensures
            copy == *self,
    {
        PrUrl { owner: self.owner.clone(), repo: self.repo.clone(), number: self.number }
    }
}

/// What the flow needs to know of a pull request.
#[derive(Debug, PartialEq, Eq)]
pub struct PrInfo {
    pub branch_name: String,
    pub is_merged: bool,
}

impl Clone for PrInfo {
    fn clone(&self) -> (copy: Self)
        ensures
            copy == *self,
    {
        PrInfo { branch_name: self.branch_name.clone(), is_merged: self.is_merged }
    }
}

// ---------------------------------------------------------------------------
// The URL
// ---------------------------------------------------------------------------

/// What every pull request URL starts with.
pub const HOST: &'static str = "https://github.com/";

/// The canonical URL of a pull request.
pub open spec fn url_of(owner: Seq<char>, repo: Seq<char>, number: u64) -> Seq<char> {
    HOST@ + (owner + seq!['/'] + (repo + seq!['/'] + ("pull"@ + seq!['/'] + decimal_of(
        number as nat,
    ))))
}

impl PrUrl {
    /// The canonical URL this was parsed from: one form for every way to write it.
    pub fn to_url(&self) -> (url: String)
        ensures
            url@ == url_of(self.owner@, self.repo@, self.number),
    {
        let mut url = concat(HOST, self.owner.as_str());
        url.push('/');
        url.append(self.repo.as_str());
        url.push('/');
        url.append("pull");
        url.push('/');
        url.append(decimal(self.number).as_str());
        assert(url@ =~= url_of(self.owner@, self.repo@, self.number));
        url
    }
}

/// Why a text is not the URL of a pull request.
#[derive(Debug, Clone, Copy, PartialEq, Eq, Structural)]
pub enum PrUrlError {
    NotGitHub,
    NotPullRequest,
    BadNumber(NumberError),
}

/// What is shown for a number that cannot be read.
pub open spec fn number_error_text(error: NumberError) -> Seq<char> {
    match error {
        NumberError::Empty => "cannot parse integer from empty string"@,
        NumberError::InvalidDigit => "invalid digit found in string"@,
        NumberError::TooLarge => "number too large to fit in target type"@,
    }
}

/// What is shown for a URL that was rejected.
pub open spec fn url_error_text(error: PrUrlError) -> Seq<char> {
    match error {
        PrUrlError::NotGitHub => "Not a GitHub URL \u{2014} must start with https://github.com/"@,
        PrUrlError::NotPullRequest =>
            "Invalid GitHub PR URL \u{2014} expected: https://github.com/owner/repo/pull/NUMBER"@,
        PrUrlError::BadNumber(number) => "PR number must be a positive integer: "@
            + number_error_text(number),
    }
}

impl PrUrlError {
    pub fn message(&self) -> (text: String)
        ensures
            text@ == url_error_text(*self),
    {
        match self {
            PrUrlError::NotGitHub => {
                "Not a GitHub URL \u{2014} must start with https://github.com/".to_owned()
            },
            PrUrlError::NotPullRequest => {
                "Invalid GitHub PR URL \u{2014} expected: https://github.com/owner/repo/pull/NUMBER".to_owned()
            },
            PrUrlError::BadNumber(number) => {
                let reason = match number {
                    NumberError::Empty => "cannot parse integer from empty string",
                    NumberError::InvalidDigit => "invalid digit found in string",
                    NumberError::TooLarge => "number too large to fit in target type",
                };
                concat("PR number must be a positive integer: ", reason)
            },
        }
    }
}

/// What stands where the number is expected, without a query or a fragment, and
/// without a trailing slash.
pub open spec fn number_part(s: Seq<char>) -> Seq<char> {
    let bare = head_of(head_of(s, '#'), '?');
    if bare.len() > 0 && bare.last() == '/' {
        bare.drop_last()
    } else {
        bare
    }
}

/// What a URL names.
pub open spec fn parsed(url: Seq<char>) -> Result<(Seq<char>, Seq<char>, u64), PrUrlError> {
    if !has_prefix(url, HOST@) {
        Err(PrUrlError::NotGitHub)
    } else {
        let path = url.skip(HOST@.len() as int);
        match tail_of(path, '/') {
            None => Err(PrUrlError::NotPullRequest),
            Some(rest) => match tail_of(rest, '/') {
                None => Err(PrUrlError::NotPullRequest),
                Some(last) => match tail_of(last, '/') {
                    None => Err(PrUrlError::NotPullRequest),
                    Some(number) => if head_of(last, '/') != "pull"@ {
                        Err(PrUrlError::NotPullRequest)
                    } else {
                        match number_of(number_part(number)) {
                            Err(error) => Err(PrUrlError::BadNumber(error)),
                            Ok(n) => Ok((head_of(path, '/'), head_of(rest, '/'), n)),
                        }
                    },
                },
            },
        }
    }
}

/// Parses a pull request URL of the form
/// `https://github.com/{owner}/{repo}/pull/{number}`. A trailing slash, a query
/// and a fragment are allowed after the number.
pub fn parse_pr_url(url: &str) -> (parsed_url: Result<PrUrl, PrUrlError>)
    ensures
        match parsed_url {
            Ok(pr) => parsed(url@) == Ok::<(Seq<char>, Seq<char>, u64), PrUrlError>(
                (pr.owner@, pr.repo@, pr.number),
            ),
            Err(error) => parsed(url@) == Err::<(Seq<char>, Seq<char>, u64), PrUrlError>(error),
        },
{
    if !starts_with(url, HOST) {
        return Err(PrUrlError::NotGitHub);
    }
    let chars = to_chars(url);
    let start: usize = char_len(HOST);
    let ghost path = url@.skip(start as int);
    let first: usize = find_char(&chars, start, '/');
    if first == chars.len() {
        return Err(PrUrlError::NotPullRequest);
    }
    let ghost rest = chars@.skip(first + 1);
    assert(path.skip(upto(path, '/') as int + 1) =~= rest);
    let second: usize = find_char(&chars, first + 1, '/');
    if second == chars.len() {
        return Err(PrUrlError::NotPullRequest);
    }
    let ghost last = chars@.skip(second + 1);
    assert(rest.skip(upto(rest, '/') as int + 1) =~= last);
    let third: usize = find_char(&chars, second + 1, '/');
    if third == chars.len() {
        return Err(PrUrlError::NotPullRequest);
    }
    let ghost number = chars@.skip(third + 1);
    assert(last.skip(upto(last, '/') as int + 1) =~= number);
    let kind = from_chars(&chars, second + 1, third);
    assert(kind@ =~= head_of(last, '/'));
    if !crate::text::same_text(kind.as_str(), "pull") {
        return Err(PrUrlError::NotPullRequest);
    }
    let tail = from_chars(&chars, third + 1, chars.len());
    assert(tail@ =~= number);
    let digits = bare_number(tail.as_str());
    match parse_number(digits.as_str()) {
        Err(error) => Err(PrUrlError::BadNumber(error)),
        Ok(n) => {
            let owner = from_chars(&chars, start, first);
            let repo = from_chars(&chars, first + 1, second);
            assert(owner@ =~= head_of(path, '/'));
            assert(repo@ =~= head_of(rest, '/'));
            Ok(PrUrl { owner, repo, number: n })
        },
    }
}

fn char_len(text: &str) -> (n: usize)
    ensures
        n == text@.len(),
{
    text.unicode_len()
}

fn bare_number(text: &str) -> (digits: String)
    ensures
        digits@ == number_part(text@),
{
    let chars = to_chars(text);
    assert(chars@.skip(0) =~= chars@);
    let fragment: usize = find_char(&chars, 0, '#');
    let head = from_chars(&chars, 0, fragment);
    assert(head@ =~= head_of(text@, '#'));
    let chars = to_chars(head.as_str());
    assert(chars@.skip(0) =~= chars@);
    let query: usize = find_char(&chars, 0, '?');
    let ghost bare = head_of(head@, '?');
    assert(bare =~= chars@.subrange(0, query as int));
    if query > 0 && chars[query - 1] == '/' {
        let digits = from_chars(&chars, 0, query - 1);
        assert(digits@ =~= bare.drop_last());
        digits
    } else {
        let digits = from_chars(&chars, 0, query);
        assert(digits@ =~= bare);
        digits
    }
}

spec fn has_no(s: Seq<char>, c: char) -> bool {
    forall|i: int| 0 <= i < s.len() ==> s[i] != c
}

/// An owner or repository name that a URL can carry: without a slash.
pub open spec fn is_url_part(s: Seq<char>) -> bool {
    forall|i: int| 0 <= i < s.len() ==> s[i] != '/'
}

proof fn lemma_split(head: Seq<char>, c: char, tail: Seq<char>)
    requires
        has_no(head, c),
    ensures
        head_of(head + seq![c] + tail, c) == head,
        tail_of(head + seq![c] + tail, c) == Some(tail),
{
    lemma_upto_prefix(head, c, tail);
    let whole = head + seq![c] + tail;
    assert(whole.take(head.len() as int) =~= head);
    assert(whole.skip(head.len() as int + 1) =~= tail);
}

proof fn lemma_number_part(n: u64, end: Seq<char>)
    requires
        is_url_end(end),
    ensures
        number_part(decimal_of(n as nat) + end) == decimal_of(n as nat),
{
    lemma_decimal_reads_back(n);
    let digits = decimal_of(n as nat);
    let whole = digits + end;
    assert(has_no(digits, '#') && has_no(digits, '?') && has_no(digits, '/')) by {
        assert forall|i: int| 0 <= i < digits.len() implies digits[i] != '#' && digits[i] != '?'
            && digits[i] != '/' by {
            assert(digit_value_is_some(digits[i]));
        }
    }
    let slash = digits + seq!['/'];
    let body = if end.len() > 0 && end[0] == '/' {
        slash
    } else {
        digits
    };
    let rest = if end.len() > 0 && end[0] == '/' {
        end.drop_first()
    } else {
        end
    };
    assert(whole =~= body + rest);
    assert(has_no(body, '#') && has_no(body, '?'));
    // The fragment goes first, then the query.
    lemma_upto(whole, '#');
    lemma_upto(body, '#');
    if rest.len() == 0 {
        assert(whole =~= body);
        lemma_cut_nothing(body, '#');
        lemma_cut_nothing(body, '?');
    } else if rest[0] == '#' {
        assert(whole =~= body + seq!['#'] + rest.drop_first());
        lemma_split(body, '#', rest.drop_first());
        lemma_cut_nothing(body, '?');
    } else {
        let query = head_of(rest, '#');
        lemma_upto(rest, '#');
        assert(has_no(query, '#'));
        assert(head_of(whole, '#') =~= body + query) by {
            if upto(rest, '#') < rest.len() {
                let after = rest.skip(upto(rest, '#') as int + 1);
                assert(whole =~= (body + query) + seq!['#'] + after);
                lemma_split(body + query, '#', after);
            } else {
                assert(query =~= rest);
                lemma_cut_nothing(body + query, '#');
                assert(whole =~= body + query);
            }
        }
        assert(query[0] == '?') by {
            assert(rest[0] == '?');
        }
        assert(body + query =~= body + seq!['?'] + query.drop_first());
        lemma_split(body, '?', query.drop_first());
    }
    if body.len() > digits.len() {
        assert(body.last() == '/');
        assert(body.drop_last() =~= digits);
    } else {
        assert(body.last() != '/');
    }
}

spec fn digit_value_is_some(c: char) -> bool {
    crate::text::digit_value(c) is Some
}

proof fn lemma_cut_nothing(s: Seq<char>, c: char)
    requires
        has_no(s, c),
    ensures
        head_of(s, c) == s,
{
    lemma_upto(s, c);
    assert(s.take(s.len() as int) =~= s);
}

/// What may follow the number of a pull request URL: nothing, a slash, and then
/// a query or a fragment.
pub open spec fn is_url_end(end: Seq<char>) -> bool {
    let rest = if end.len() > 0 && end[0] == '/' {
        end.drop_first()
    } else {
        end
    };
    rest.len() == 0 || rest[0] == '#' || rest[0] == '?'
}

/// A URL is read back from its canonical form, and every way to end it files
/// under that form: a trailing slash, a query, a fragment.
pub proof fn law_url_reads_back(owner: Seq<char>, repo: Seq<char>, number: u64, end: Seq<char>)
    requires
        is_url_part(owner),
        is_url_part(repo),
        is_url_end(end),
    ensures
        parsed(url_of(owner, repo, number) + end) == Ok::<(Seq<char>, Seq<char>, u64), PrUrlError>(
            (owner, repo, number),
        ),
{
    reveal_strlit("pull");
    let digits = decimal_of(number as nat);
    let last = "pull"@ + seq!['/'] + (digits + end);
    let rest = repo + seq!['/'] + last;
    let path = owner + seq!['/'] + rest;
    let url = url_of(owner, repo, number) + end;
    assert(url =~= HOST@ + path);
    assert(url.subrange(0, HOST@.len() as int) =~= HOST@);
    assert(url.skip(HOST@.len() as int) =~= path);
    lemma_split(owner, '/', rest);
    lemma_split(repo, '/', last);
    lemma_split("pull"@, '/', digits + end);
    lemma_number_part(number, end);
    lemma_decimal_reads_back(number);
}

// ---------------------------------------------------------------------------
// The lookup
// ---------------------------------------------------------------------------

/// `/{owner}/{repo}/pulls/{number}`, as GitHub's API spells it.
pub open spec fn endpoint_of(owner: Seq<char>, repo: Seq<char>, number: u64) -> Seq<char> {
    "/repos/"@ + owner + "/"@ + repo + "/pulls/"@ + decimal_of(number as nat)
}

impl PrUrl {
    /// The API path of this pull request.
    pub fn endpoint(&self) -> (path: String)
        ensures
            path@ == endpoint_of(self.owner@, self.repo@, self.number),
    {
        let mut path = concat("/repos/", self.owner.as_str());
        path.append("/");
        path.append(self.repo.as_str());
        path.append("/pulls/");
        path.append(decimal(self.number).as_str());
        path
    }

    /// The API address of this pull request.
    pub fn api_url(&self) -> (url: String)
        ensures
            url@ == "https://api.github.com"@ + endpoint_of(self.owner@, self.repo@, self.number),
    {
        concat("https://api.github.com", self.endpoint().as_str())
    }

    /// Where the repository is cloned from.
    pub fn remote(&self) -> (url: String)
        ensures
            url@ == remote_of(self.owner@, self.repo@),
    {
        remote_url(self.owner.as_str(), self.repo.as_str())
    }
}

/// How a run of the `gh` command ended.
#[derive(Debug, PartialEq, Eq)]
pub enum GhRun {
    Succeeded { stdout: Vec<u8> },
    Failed { stderr: String },
    NotInstalled,
    NotRun { error: String },
}

/// What to do after `gh` was tried.
#[derive(Debug, PartialEq, Eq)]
pub enum Lookup {
    /// Its answer is to be read.
    Read { body: Vec<u8> },
    /// Ask GitHub directly, with a token.
    AskDirectly,
    Fail { message: String },
}

/// The message for a request that `gh` could not carry out.
pub open spec fn gh_failure(stderr: Seq<char>) -> Seq<char> {
    let said = trim_of(stderr);
    if holds_text(said, "authentication"@) || holds_text(said, "not logged"@) || said.len() == 0 {
        "GitHub auth failed \u{2014} set GITHUB_TOKEN or run `gh auth login`"@
    } else {
        "GitHub API error: "@ + said
    }
}

/// Decides what follows a run of `gh api`: its own credentials come first, and
/// only a missing `gh` leaves the lookup to a direct request.
pub fn after_gh(run: GhRun) -> (next: Lookup)
    ensures
        match run {
            GhRun::Succeeded { stdout } => next == (Lookup::Read { body: stdout }),
            GhRun::Failed { stderr } => next matches Lookup::Fail { message } && message@
                == gh_failure(stderr@),
            GhRun::NotInstalled => next == Lookup::AskDirectly,
            GhRun::NotRun { error } => next matches Lookup::Fail { message } && message@
                == "Failed to run gh: "@ + error@,
        },
{
    match run {
        GhRun::Succeeded { stdout } => Lookup::Read { body: stdout },
        GhRun::Failed { stderr } => {
            let said = trim(stderr.as_str());
            if contains_text(said.as_str(), "authentication") || contains_text(
                said.as_str(),
                "not logged",
            ) || said.as_str().is_empty() {
                Lookup::Fail {
                    message: "GitHub auth failed \u{2014} set GITHUB_TOKEN or run `gh auth login`".to_owned(),
                }
            } else {
                Lookup::Fail { message: concat("GitHub API error: ", said.as_str()) }
            }
        },
        GhRun::NotInstalled => Lookup::AskDirectly,
        GhRun::NotRun { error } => Lookup::Fail {
            message: concat("Failed to run gh: ", error.as_str()),
        },
    }
}

/// The text that stands at a JSON pointer in a body, if there is one; or why the
/// body is not JSON.
pub uninterp spec fn json_text(body: Seq<u8>, pointer: Seq<char>) -> Result<
    Option<Seq<char>>,
    Seq<char>,
>;

/// The truth value that stands at a JSON pointer in a body, if there is one; or
/// why the body is not JSON.
pub uninterp spec fn json_flag(body: Seq<u8>, pointer: Seq<char>) -> Result<
    Option<bool>,
    Seq<char>,
>;

/// The fields of an answer that matter.
#[derive(Debug, PartialEq, Eq)]
pub struct Answer {
    pub message: Option<String>,
    pub branch: Option<String>,
    pub merged: Option<bool>,
}

/// The text of an optional string.
pub open spec fn opt_text(text: Option<String>) -> Option<Seq<char>> {
    match text {
        Some(t) => Some(t@),
        None => None,
    }
}

/// What was read of a text, or why nothing could be.
pub open spec fn text_view(text: Result<Option<String>, String>) -> Result<
    Option<Seq<char>>,
    Seq<char>,
> {
    match text {
        Ok(found) => Ok(opt_text(found)),
        Err(error) => Err(error@),
    }
}

/// What was read of a truth value, or why nothing could be.
pub open spec fn flag_view(flag: Result<Option<bool>, String>) -> Result<Option<bool>, Seq<char>> {
    match flag {
        Ok(found) => Ok(found),
        Err(error) => Err(error@),
    }
}

/// The text at a JSON pointer in a body.
///
/// Calls `serde_json::from_slice`, `serde_json::Value::pointer` and
/// `serde_json::Value::as_str`. Claimed of them: what comes back depends on the
/// bytes and the pointer alone.
#[verifier::external_body]
fn text_at(body: &Vec<u8>, pointer: &str) -> (text: Result<Option<String>, String>)
    ensures
        text_view(text) == json_text(body@, pointer@),
{
    match serde_json::from_slice::<serde_json::Value>(body.as_slice()) {
        Ok(json) => Ok(
            json.pointer(pointer).and_then(serde_json::Value::as_str).map(str::to_string),
        ),
        Err(error) => Err(error.to_string()),
    }
}

/// The truth value at a JSON pointer in a body.
///
/// Calls `serde_json::from_slice`, `serde_json::Value::pointer` and
/// `serde_json::Value::as_bool`. Claimed of them: what comes back depends on the
/// bytes and the pointer alone.
#[verifier::external_body]
fn flag_at(body: &Vec<u8>, pointer: &str) -> (flag: Result<Option<bool>, String>)
    ensures
        flag_view(flag) == json_flag(body@, pointer@),
{
    match serde_json::from_slice::<serde_json::Value>(body.as_slice()) {
        Ok(json) => Ok(json.pointer(pointer).and_then(serde_json::Value::as_bool)),
        Err(error) => Err(error.to_string()),
    }
}

/// What an answer says: the branch and whether it is merged, or why not.
pub open spec fn info_of(
    message: Option<Seq<char>>,
    branch: Option<Seq<char>>,
    merged: Option<bool>,
) -> Result<(Seq<char>, bool), Seq<char>> {
    match (message, branch) {
        (Some(text), _) => Err("GitHub API error: "@ + text),
        (None, None) => Err("Unexpected GitHub API response: missing head.ref"@),
        (None, Some(name)) => Ok((name, merged == Some(true))),
    }
}

/// What an answer says of a pull request. GitHub reports a failure as an answer
/// with a `message`.
pub fn pr_info_of(answer: Answer) -> (info: Result<PrInfo, String>)
    ensures
        match info {
            Ok(pr) => info_of(opt_text(answer.message), opt_text(answer.branch), answer.merged)
                == Ok::<(Seq<char>, bool), Seq<char>>((pr.branch_name@, pr.is_merged)),
            Err(error) => info_of(opt_text(answer.message), opt_text(answer.branch), answer.merged)
                == Err::<(Seq<char>, bool), Seq<char>>(error@),
        },
{
    if let Some(text) = answer.message {
        return Err(concat("GitHub API error: ", text.as_str()));
    }
    match answer.branch {
        None => Err("Unexpected GitHub API response: missing head.ref".to_owned()),
        Some(branch_name) => Ok(
            PrInfo {
                branch_name,
                is_merged: match answer.merged {
                    Some(merged) => merged,
                    None => false,
                },
            },
        ),
    }
}

/// What is said of an answer that is not JSON.
pub open spec fn not_read(error: Seq<char>) -> Seq<char> {
    "Failed to parse GitHub API response: "@ + error
}

/// What the fields that were read of an answer say.
pub open spec fn answer_of(
    message: Result<Option<Seq<char>>, Seq<char>>,
    branch: Result<Option<Seq<char>>, Seq<char>>,
    merged: Result<Option<bool>, Seq<char>>,
) -> Result<(Seq<char>, bool), Seq<char>> {
    match (message, branch, merged) {
        (Err(error), _, _) => Err(not_read(error)),
        (Ok(_), Err(error), _) => Err(not_read(error)),
        (Ok(_), Ok(_), Err(error)) => Err(not_read(error)),
        (Ok(text), Ok(name), Ok(flag)) => info_of(text, name, flag),
    }
}

/// What an answer says of a pull request, from what was read at its fields.
pub fn pr_info_from(
    message: Result<Option<String>, String>,
    branch: Result<Option<String>, String>,
    merged: Result<Option<bool>, String>,
) -> (info: Result<PrInfo, String>)
    ensures
        match info {
            Ok(pr) => answer_of(text_view(message), text_view(branch), flag_view(merged)) == Ok::<
                (Seq<char>, bool),
                Seq<char>,
            >((pr.branch_name@, pr.is_merged)),
            Err(error) => answer_of(text_view(message), text_view(branch), flag_view(merged))
                == Err::<(Seq<char>, bool), Seq<char>>(error@),
        },
{
    let unread = "Failed to parse GitHub API response: ";
    let message = match message {
        Err(error) => return Err(concat(unread, error.as_str())),
        Ok(found) => found,
    };
    let branch = match branch {
        Err(error) => return Err(concat(unread, error.as_str())),
        Ok(found) => found,
    };
    let merged = match merged {
        Err(error) => return Err(concat(unread, error.as_str())),
        Ok(found) => found,
    };
    pr_info_of(Answer { message, branch, merged })
}

/// Reads an answer about a pull request: its `message`, the `ref` of its `head`,
/// and whether it is `merged`.
pub fn parse_pr_json(body: &Vec<u8>) -> (info: Result<PrInfo, String>)
    ensures
        ({
            let said = answer_of(
                json_text(body@, "/message"@),
                json_text(body@, "/head/ref"@),
                json_flag(body@, "/merged"@),
            );
            match info {
                Ok(pr) => said == Ok::<(Seq<char>, bool), Seq<char>>(
                    (pr.branch_name@, pr.is_merged),
                ),
                Err(error) => said == Err::<(Seq<char>, bool), Seq<char>>(error@),
            }
        }),
{
    let message = text_at(body, "/message");
    let branch = text_at(body, "/head/ref");
    let merged = flag_at(body, "/merged");
    pr_info_from(message, branch, merged)
}

// ---------------------------------------------------------------------------
// Cloning
// ---------------------------------------------------------------------------

/// Where a repository is cloned from.
pub open spec fn remote_of(owner: Seq<char>, repo: Seq<char>) -> Seq<char> {
    "git@github.com:"@ + owner + "/"@ + repo + ".git"@
}

fn remote_url(owner: &str, repo: &str) -> (url: String)
    ensures
        url@ == remote_of(owner@, repo@),
{
    let mut url = concat("git@github.com:", owner);
    url.append("/");
    url.append(repo);
    url.append(".git");
    url
}

/// The address of a pull request, spelled out.
pub proof fn law_an_address_is_spelled_out(owner: Seq<char>, repo: Seq<char>, number: u64)
    ensures
        url_of(owner, repo, number) == "https://github.com/"@ + owner + "/"@ + repo + "/pull/"@
            + decimal_of(number as nat),
        remote_of(owner, repo) == "git@github.com:"@ + owner + "/"@ + repo + ".git"@,
{
    reveal_strlit("/");
    reveal_strlit("pull");
    reveal_strlit("/pull/");
    assert(url_of(owner, repo, number) =~= "https://github.com/"@ + owner + "/"@ + repo + "/pull/"@
        + decimal_of(number as nat));
}

/// A name that is exactly one component of a path, and cannot climb out of it.
pub open spec fn is_path_segment(name: Seq<char>) -> bool {
    &&& name.len() > 0
    &&& forall|i: int| 0 <= i < name.len() ==> name[i] != '/'
    &&& name != "."@
    &&& name != ".."@
}

/// Accepts a name that is exactly one path component, and nothing else.
pub fn one_path_segment(name: &str) -> (ok: bool)
    ensures
        ok == is_path_segment(name@),
{
    let chars = to_chars(name);
    assert(chars@.skip(0) =~= chars@);
    let slash: usize = find_char(&chars, 0, '/');
    proof {
        lemma_upto(name@, '/');
    }
    chars.len() > 0 && slash == chars.len() && !crate::text::same_text(name, ".")
        && !crate::text::same_text(name, "..")
}

/// `name` inside the directory `dir`.
pub open spec fn path_in(dir: Seq<char>, name: Seq<char>) -> Seq<char> {
    if dir.len() == 0 || dir.last() == '/' {
        dir + name
    } else {
        dir + "/"@ + name
    }
}

/// `name` inside the directory `dir`.
pub fn join_path(dir: &str, name: &str) -> (path: String)
    ensures
        path@ == path_in(dir@, name@),
{
    let n: usize = dir.unicode_len();
    if n == 0 || dir.get_char(n - 1) == '/' {
        concat(dir, name)
    } else {
        let mut path = concat(dir, "/");
        path.append(name);
        path
    }
}

/// A clone about to be made: from where, and to which directory.
#[derive(Debug, PartialEq, Eq)]
pub struct ClonePlan {
    pub remote: String,
    pub dest: String,
}

/// Why no clone is made.
pub open spec fn unsafe_name(reason: Seq<char>, name: Seq<char>) -> Seq<char> {
    reason + ": "@ + debug_of(name) + " is not a plain repository name"@
}

fn reject(reason: &str, name: &str) -> (text: String)
    ensures
        text@ == unsafe_name(reason@, name@),
{
    let mut text = concat(reason, ": ");
    text.append(quoted(name).as_str());
    text.append(" is not a plain repository name");
    text
}

/// Plans a clone of `owner/repo` into `repos_dir`. Neither name may steer the
/// destination out of that directory.
pub fn plan_clone(owner: &str, repo: &str, repos_dir: &str) -> (plan: Result<ClonePlan, String>)
    ensures
        match plan {
            Ok(clone) => is_path_segment(repo@) && is_path_segment(owner@) && clone.dest@
                == path_in(repos_dir@, repo@) && clone.remote@ == remote_of(owner@, repo@),
            Err(text) => if !is_path_segment(repo@) {
                text@ == unsafe_name("Refusing to clone into an unsafe path"@, repo@)
            } else {
                !is_path_segment(owner@) && text@ == unsafe_name(
                    "Refusing to clone from an unsafe name"@,
                    owner@,
                )
            },
        },
{
    if !one_path_segment(repo) {
        return Err(reject("Refusing to clone into an unsafe path", repo));
    }
    if !one_path_segment(owner) {
        return Err(reject("Refusing to clone from an unsafe name", owner));
    }
    Ok(ClonePlan { remote: remote_url(owner, repo), dest: join_path(repos_dir, repo) })
}

/// How creating the destination went.
#[derive(Debug, PartialEq, Eq)]
pub enum Claim {
    Created,
    AlreadyExists,
    Failed { error: String },
}

/// What is shown for a destination that could not be claimed.
pub open spec fn claim_failure(claim: Claim, dest: Seq<char>) -> Option<Seq<char>> {
    match claim {
        Claim::Created => None,
        Claim::AlreadyExists => Some(
            dest
                + " already exists \u{2014} an earlier clone may have been interrupted. Remove it, or open it and finish it with `git fetch`, then rescan"@,
        ),
        Claim::Failed { error } => Some("Could not create "@ + dest + ": "@ + error@),
    }
}

/// Decides whether a clone may go on once its destination was claimed. Nothing
/// is ever cloned on top of what is already there.
pub fn after_claim(claim: Claim, dest: &str) -> (failure: Option<String>)
    ensures
        opt_text(failure) == claim_failure(claim, dest@),
{
    match claim {
        Claim::Created => None,
        Claim::AlreadyExists => Some(
            concat(
                dest,
                " already exists \u{2014} an earlier clone may have been interrupted. Remove it, or open it and finish it with `git fetch`, then rescan",
            ),
        ),
        Claim::Failed { error } => {
            let mut text = concat("Could not create ", dest);
            text.append(": ");
            text.append(error.as_str());
            Some(text)
        },
    }
}

/// How a run of `git clone` ended.
#[derive(Debug, PartialEq, Eq)]
pub enum CloneRun {
    Succeeded,
    Failed { stderr: String },
    NotRun { error: String },
}

/// What is shown for a clone that failed; its directory is then discarded.
pub open spec fn clone_failure(run: CloneRun) -> Option<Seq<char>> {
    match run {
        CloneRun::Succeeded => None,
        CloneRun::Failed { stderr } => Some("git clone failed: "@ + trim_of(stderr@)),
        CloneRun::NotRun { error } => Some("Failed to run git clone: "@ + error@),
    }
}

/// Decides what a run of `git clone` came to.
pub fn after_clone_run(run: CloneRun) -> (failure: Option<String>)
    ensures
        opt_text(failure) == clone_failure(run),
{
    match run {
        CloneRun::Succeeded => None,
        CloneRun::Failed { stderr } => Some(
            concat("git clone failed: ", trim(stderr.as_str()).as_str()),
        ),
        CloneRun::NotRun { error } => Some(concat("Failed to run git clone: ", error.as_str())),
    }
}

/// A planned clone lands directly inside the repos dir: its destination is the
/// directory and one component more.
pub proof fn law_clone_stays_inside(repos_dir: Seq<char>, repo: Seq<char>)
    requires
        is_path_segment(repo),
        repos_dir.len() > 0,
    ensures
        ({
            let dest = path_in(repos_dir, repo);
            let from = dest.len() - repo.len();
            &&& dest.skip(from) == repo
            &&& dest.take(repos_dir.len() as int) == repos_dir
            &&& dest[from - 1] == '/'
            &&& from <= repos_dir.len() + 1
        }),
{
    reveal_strlit("/");
    let dest = path_in(repos_dir, repo);
    let from = dest.len() - repo.len();
    assert(dest.skip(from) =~= repo);
    assert(dest.take(repos_dir.len() as int) =~= repos_dir);
}

proof fn lemma_cut_at(s: Seq<char>, c: char)
    requires
        tail_of(s, c) is Some,
    ensures
        s == head_of(s, c) + (seq![c] + tail_of(s, c)->0),
        has_no(head_of(s, c), c),
{
    lemma_upto(s, c);
    assert(s =~= head_of(s, c) + (seq![c] + tail_of(s, c)->0));
}

/// What is read of a text is what stands in it: GitHub's address, the owner, the
/// repository, the word `pull`, and a number, each up to a slash.
pub proof fn law_only_what_stands_there_is_read(url: Seq<char>)
    ensures
        parsed(url) matches Ok((owner, repo, number)) ==> {
            &&& is_url_part(owner)
            &&& is_url_part(repo)
            &&& exists|tail: Seq<char>|
                #![trigger number_part(tail)]
                url == "https://github.com/"@ + (owner + (seq!['/'] + (repo + (seq!['/'] + (
                "pull"@ + (seq!['/'] + tail)))))) && number_of(number_part(tail)) == Ok::<
                    u64,
                    NumberError,
                >(number)
        },
{
    if parsed(url) is Ok {
        let path = url.skip(HOST@.len() as int);
        assert(url =~= HOST@ + path);
        lemma_cut_at(path, '/');
        let rest = tail_of(path, '/')->0;
        lemma_cut_at(rest, '/');
        let last = tail_of(rest, '/')->0;
        lemma_cut_at(last, '/');
        let tail = tail_of(last, '/')->0;
        assert(number_of(number_part(tail)) == Ok::<u64, NumberError>((parsed(url)->Ok_0).2));
    }
}

/// A text is told not to be GitHub's exactly where it does not start with that
/// address.
pub proof fn law_what_is_not_githubs_is_told_so(url: Seq<char>)
    ensures
        parsed(url) == Err::<(Seq<char>, Seq<char>, u64), PrUrlError>(PrUrlError::NotGitHub)
            <==> !has_prefix(url, "https://github.com/"@),
{
}

/// Every reason why a text was not taken is told in words of its own.
pub proof fn law_a_rejected_url_is_told_why(error: PrUrlError)
    ensures
        error == PrUrlError::NotGitHub ==> url_error_text(error)
            == "Not a GitHub URL \u{2014} must start with https://github.com/"@,
        error == PrUrlError::NotPullRequest ==> url_error_text(error)
            == "Invalid GitHub PR URL \u{2014} expected: https://github.com/owner/repo/pull/NUMBER"@,
        error == PrUrlError::BadNumber(NumberError::Empty) ==> url_error_text(error)
            == "PR number must be a positive integer: "@
            + "cannot parse integer from empty string"@,
        error == PrUrlError::BadNumber(NumberError::InvalidDigit) ==> url_error_text(error)
            == "PR number must be a positive integer: "@ + "invalid digit found in string"@,
        error == PrUrlError::BadNumber(NumberError::TooLarge) ==> url_error_text(error)
            == "PR number must be a positive integer: "@
            + "number too large to fit in target type"@,
{
}

/// An answer that carries a message is a failure, whatever else it holds; one
/// without a branch is no answer; and only what is said to be merged is merged.
pub proof fn law_an_answer_with_a_message_is_a_failure(
    message: Option<Seq<char>>,
    branch: Option<Seq<char>>,
    merged: Option<bool>,
)
    ensures
        info_of(message, branch, merged) is Ok <==> message is None && branch is Some,
        info_of(message, branch, merged) matches Ok((name, is_merged)) ==> Some(name) == branch
            && (is_merged <==> merged == Some(true)),
        message matches Some(text) ==> info_of(message, branch, merged) == Err::<
            (Seq<char>, bool),
            Seq<char>,
        >("GitHub API error: "@ + text),
        message is None && branch is None ==> info_of(message, branch, merged) == Err::<
            (Seq<char>, bool),
            Seq<char>,
        >("Unexpected GitHub API response: missing head.ref"@),
{
}

/// An answer that could not be read says nothing of a pull request, only why it
/// could not be read; one that could is taken by its fields.
pub proof fn law_an_unread_answer_says_why(
    message: Result<Option<Seq<char>>, Seq<char>>,
    branch: Result<Option<Seq<char>>, Seq<char>>,
    merged: Result<Option<bool>, Seq<char>>,
)
    ensures
        message is Ok && branch is Ok && merged is Ok ==> answer_of(message, branch, merged)
            == info_of(message->Ok_0, branch->Ok_0, merged->Ok_0),
        message matches Err(error) ==> answer_of(message, branch, merged) == Err::<
            (Seq<char>, bool),
            Seq<char>,
        >("Failed to parse GitHub API response: "@ + error),
        message is Ok ==> (branch matches Err(error) ==> answer_of(message, branch, merged)
            == Err::<(Seq<char>, bool), Seq<char>>(
            "Failed to parse GitHub API response: "@ + error,
        )),
        message is Ok && branch is Ok ==> (merged matches Err(error) ==> answer_of(
            message,
            branch,
            merged,
        ) == Err::<(Seq<char>, bool), Seq<char>>(
            "Failed to parse GitHub API response: "@ + error,
        )),
{
}

/// A run of `gh` that said nothing, or spoke of logging in, is told as a matter
/// of logging in; anything else is told in its own words, without the blanks
/// around them.
pub proof fn law_a_failed_request_is_told_in_its_own_words(stderr: Seq<char>)
    ensures
        ({
            let said = trim_of(stderr);
            let login = said.len() == 0 || holds_text(said, "authentication"@) || holds_text(
                said,
                "not logged"@,
            );
            &&& login ==> gh_failure(stderr)
                == "GitHub auth failed \u{2014} set GITHUB_TOKEN or run `gh auth login`"@
            &&& !login ==> gh_failure(stderr) == "GitHub API error: "@ + said
        }),
{
}

/// The path of a pull request in GitHub's API, spelled out.
pub proof fn law_an_endpoint_is_spelled_out(owner: Seq<char>, repo: Seq<char>, number: u64)
    ensures
        endpoint_of(owner, repo, number) == "/repos/"@ + owner + "/"@ + repo + "/pulls/"@
            + decimal_of(number as nat),
{
}

/// A directory is cloned into only where it was just made; a clone that went
/// through says nothing, and any other says why it did not.
pub proof fn law_nothing_is_cloned_over(claim: Claim, dest: Seq<char>, run: CloneRun)
    ensures
        claim_failure(claim, dest) is None <==> claim is Created,
        claim is AlreadyExists ==> claim_failure(claim, dest) == Some(
            dest
                + " already exists \u{2014} an earlier clone may have been interrupted. Remove it, or open it and finish it with `git fetch`, then rescan"@,
        ),
        claim matches Claim::Failed { error } ==> claim_failure(claim, dest) == Some(
            "Could not create "@ + dest + ": "@ + error@,
        ),
        clone_failure(run) is None <==> run is Succeeded,
        run matches CloneRun::Failed { stderr } ==> clone_failure(run) == Some(
            "git clone failed: "@ + trim_of(stderr@),
        ),
        run matches CloneRun::NotRun { error } ==> clone_failure(run) == Some(
            "Failed to run git clone: "@ + error@,
        ),
{
}

/// A name that stands for one directory holds no slash and is not one of the two
/// that climb.
pub proof fn law_a_segment_is_one_directory(name: Seq<char>)
    ensures
        is_path_segment(name) <==> name.len() > 0 && !name.contains('/') && name != seq!['.']
            && name != seq!['.', '.'],
{
    reveal_strlit(".");
    reveal_strlit("..");
    assert("."@ =~= seq!['.']);
    assert(".."@ =~= seq!['.', '.']);
}

} // verus!
