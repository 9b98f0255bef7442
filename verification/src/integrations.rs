//! Ticket references: telling a Linear or Sentry reference from a plain
//! branch name, and turning a ticket into a branch name.
//!
//! Talking to the trackers is the caller's business. This module reads
//! what the operator typed, and shapes what a tracker answered.

use vstd::prelude::*;
use crate::config::SeshConfig;
use crate::order::{is_stable_order, key_values, positions, stable_order};
use crate::session::IssueContext;
use crate::text::{
    chars_of, decimal, decimal_digits, ends_with, find_from, first_index, joined, push_all,
    push_str, rows, same_chars, same_text, slice_of, split, split_on, starts_with,
    string_of, texts, trim_text, trimmed,
};

verus! {

/// The result of `str::to_lowercase`: the lowercase form of a text as
/// Unicode defines it.
pub uninterp spec fn lowercase_of(s: Seq<char>) -> Seq<char>;

/// `str::to_lowercase` returns the lowercase form of its argument, a value
/// that depends on the argument alone.
pub assume_specification[ str::to_lowercase ](s: &str) -> (out: String)
    ensures
        out@ == lowercase_of(s@),
;

/// An ASCII capital letter.
pub open spec fn is_upper(c: char) -> bool {
    'A' <= c && c <= 'Z'
}

/// An ASCII digit.
pub open spec fn is_digit(c: char) -> bool {
    '0' <= c && c <= '9'
}

/// An ASCII letter or digit.
pub open spec fn is_alnum(c: char) -> bool {
    is_digit(c) || is_upper(c) || ('a' <= c && c <= 'z')
}

/// Whether every character of `s` is an ASCII capital letter.
pub open spec fn all_upper(s: Seq<char>) -> bool {
    forall|i: int| 0 <= i < s.len() ==> is_upper(#[trigger] s[i])
}

/// Whether every character of `s` is an ASCII digit.
pub open spec fn all_digits(s: Seq<char>) -> bool {
    forall|i: int| 0 <= i < s.len() ==> is_digit(#[trigger] s[i])
}

/// A Linear issue id: one or more capital letters, a dash, one or more
/// digits, as in `ENG-123`.
pub open spec fn linear_id(s: Seq<char>) -> bool {
    let dash = first_index(s, '-');
    &&& 0 < dash < s.len() - 1
    &&& all_upper(s.take(dash))
    &&& all_digits(s.skip(dash + 1))
}

fn only_upper(v: &Vec<char>) -> (yes: bool)
    ensures
        yes == all_upper(v@),
{
    let mut i: usize = 0;
    while i < v.len()
        invariant
            i <= v.len(),
            forall|j: int| 0 <= j < i ==> is_upper(#[trigger] v@[j]),
        decreases v.len() - i,
    {
        let c = v[i];
        if !(c >= 'A' && c <= 'Z') {
            return false;
        }
        i = i + 1;
    }
    true
}

fn only_digits(v: &Vec<char>) -> (yes: bool)
    ensures
        yes == all_digits(v@),
{
    let mut i: usize = 0;
    while i < v.len()
        invariant
            i <= v.len(),
            forall|j: int| 0 <= j < i ==> is_digit(#[trigger] v@[j]),
        decreases v.len() - i,
    {
        let c = v[i];
        if !(c >= '0' && c <= '9') {
            return false;
        }
        i = i + 1;
    }
    true
}

fn is_linear_id_chars(v: &Vec<char>) -> (yes: bool)
    ensures
        yes == linear_id(v@),
{
    let dash = find_from(v, 0, '-');
    assert(v@.skip(0) == v@);
    if dash == 0 || dash >= v.len() - 1 {
        return false;
    }
    let prefix = slice_of(v, 0, dash);
    let suffix = slice_of(v, dash + 1, v.len());
    assert(v@.subrange(0, dash as int) == v@.take(dash as int));
    assert(v@.subrange(dash + 1, v.len() as int) == v@.skip(dash + 1));
    only_upper(&prefix) && only_digits(&suffix)
}

/// Whether `input` is a Linear issue id such as `ENG-123`.
pub fn is_linear_id(input: &str) -> (yes: bool)
    ensures
        yes == linear_id(input@),
{
    let v = chars_of(input);
    is_linear_id_chars(&v)
}

/// The issue id in a Linear issue address
/// `https://linear.app/<workspace>/issue/<ID>/...`, if `s` is one.
pub open spec fn linear_url_id(s: Seq<char>) -> Option<Seq<char>> {
    let prefix = "https://linear.app/"@;
    if prefix.is_prefix_of(s) {
        let parts = split_on(s.skip(prefix.len() as int), '/');
        if parts.len() >= 3 && parts[1] == "issue"@ && linear_id(parts[2]) {
            Some(parts[2])
        } else {
            None
        }
    } else {
        None
    }
}

/// Reads the issue id out of a Linear issue address.
pub fn parse_linear_url(input: &str) -> (id: Option<String>)
    ensures
        id is Some <==> linear_url_id(input@) is Some,
        id is Some ==> id->0@ == linear_url_id(input@)->0,
{
    let v = chars_of(input);
    let prefix = chars_of("https://linear.app/");
    if !starts_with(&v, &prefix) {
        return None;
    }
    let rest = slice_of(&v, prefix.len(), v.len());
    assert(rest@ == v@.skip(prefix.len() as int));
    let parts = split(&rest, '/');
    if parts.len() < 3 {
        return None;
    }
    let issue = chars_of("issue");
    assert(rows(parts@)[1] == parts@[1]@);
    assert(rows(parts@)[2] == parts@[2]@);
    if !same_chars(&parts[1], &issue) {
        return None;
    }
    if !is_linear_id_chars(&parts[2]) {
        return None;
    }
    Some(string_of(&parts[2]))
}

/// The organisation and the issue number in a Sentry issue address
/// `https://<org>.sentry.io/issues/<number>/...`, if `s` is one.
pub open spec fn sentry_url_parts(s: Seq<char>) -> Option<(Seq<char>, Seq<char>)> {
    let scheme = "https://"@;
    let suffix = ".sentry.io"@;
    if scheme.is_prefix_of(s) {
        let parts = split_on(s.skip(scheme.len() as int), '/');
        if parts.len() >= 3 && suffix.is_suffix_of(parts[0]) && parts[1] == "issues"@
            && parts[2].len() > 0 && all_digits(parts[2]) {
            Some((parts[0].take(parts[0].len() - suffix.len()), parts[2]))
        } else {
            None
        }
    } else {
        None
    }
}

/// Reads the organisation and the issue number out of a Sentry issue
/// address.
pub fn parse_sentry_url(input: &str) -> (found: Option<(String, String)>)
    ensures
        found is Some <==> sentry_url_parts(input@) is Some,
        match found {
            Some((org, number)) => sentry_url_parts(input@) == Some((org@, number@)),
            None => true,
        },
{
    let v = chars_of(input);
    let scheme = chars_of("https://");
    if !starts_with(&v, &scheme) {
        return None;
    }
    let rest = slice_of(&v, scheme.len(), v.len());
    assert(rest@ == v@.skip(scheme.len() as int));
    let parts = split(&rest, '/');
    if parts.len() < 3 {
        return None;
    }
    assert(rows(parts@)[0] == parts@[0]@);
    assert(rows(parts@)[1] == parts@[1]@);
    assert(rows(parts@)[2] == parts@[2]@);
    let suffix = chars_of(".sentry.io");
    let issues = chars_of("issues");
    let host = &parts[0];
    if !ends_with(host, &suffix) {
        return None;
    }
    if !same_chars(&parts[1], &issues) {
        return None;
    }
    let number = &parts[2];
    if number.len() == 0 || !only_digits(number) {
        return None;
    }
    let org = slice_of(host, 0, host.len() - suffix.len());
    assert(host@.subrange(0, host.len() - suffix.len()) == host@.take(host.len() - suffix.len()));
    Some((string_of(&org), string_of(number)))
}

/// `s` with every character that is not an ASCII letter or digit replaced
/// by a dash.
pub open spec fn dashed(s: Seq<char>) -> Seq<char> {
    Seq::new(s.len(), |i: int| if is_alnum(s[i]) { s[i] } else { '-' })
}

/// The pieces of `parts` that are not empty.
pub open spec fn nonempty(parts: Seq<Seq<char>>) -> Seq<Seq<char>>
    decreases parts.len(),
{
    if parts.len() == 0 {
        Seq::empty()
    } else if parts.last().len() == 0 {
        nonempty(parts.drop_last())
    } else {
        nonempty(parts.drop_last()).push(parts.last())
    }
}

/// The slug of a lowercased title: its runs of ASCII letters and digits,
/// joined by single dashes.
pub open spec fn slug_of(lowered: Seq<char>) -> Seq<char> {
    joined(nonempty(split_on(dashed(lowered), '-')), seq!['-'])
}

/// Turns a lowercased title into a slug: the runs of ASCII letters and
/// digits, joined by single dashes, with no dash at either end.
pub fn slug_from_lowered(lowered: &str) -> (slug: String)
    ensures
        slug@ == slug_of(lowered@),
{
    let v = chars_of(lowered);
    let mut marked: Vec<char> = Vec::new();
    let mut i: usize = 0;
    while i < v.len()
        invariant
            i <= v.len(),
            marked@ == dashed(v@).take(i as int),
        decreases v.len() - i,
    {
        let c = v[i];
        let keep = (c >= '0' && c <= '9') || (c >= 'A' && c <= 'Z') || (c >= 'a' && c <= 'z');
        if keep {
            marked.push(c);
        } else {
            marked.push('-');
        }
        i = i + 1;
    }
    assert(dashed(v@).take(v.len() as int) == dashed(v@));
    let parts = split(&marked, '-');
    let mut out: Vec<char> = Vec::new();
    let mut any: bool = false;
    let mut k: usize = 0;
    let ghost sep = seq!['-'];
    assert(rows(parts@).take(0).len() == 0);
    while k < parts.len()
        invariant
            k <= parts.len(),
            sep == seq!['-'],
            out@ == joined(nonempty(rows(parts@).take(k as int)), sep),
            any == (nonempty(rows(parts@).take(k as int)).len() > 0),
        decreases parts.len() - k,
    {
        let ghost before = nonempty(rows(parts@).take(k as int));
        let ghost upto = rows(parts@).take(k + 1);
        proof {
            assert(upto.drop_last() == rows(parts@).take(k as int));
            assert(upto.last() == parts@[k as int]@);
        }
        if parts[k].len() > 0 {
            let ghost grown = before.push(parts@[k as int]@);
            proof {
                assert(grown.drop_last() == before);
                assert(grown.last() == parts@[k as int]@);
            }
            if any {
                out.push('-');
                assert(out@ == joined(before, sep) + sep);
            } else {
                assert(out@ + parts@[k as int]@ == parts@[k as int]@);
            }
            push_all(&mut out, &parts[k]);
            any = true;
        }
        k = k + 1;
    }
    assert(rows(parts@).take(parts.len() as int) == rows(parts@));
    string_of(&out)
}

/// Turns a title into a slug: lowercase runs of ASCII letters and digits
/// joined by single dashes.
pub fn slugify(s: &str) -> (slug: String)
    ensures
        slug@ == slug_of(lowercase_of(s@)),
{
    let lowered = s.to_lowercase();
    slug_from_lowered(lowered.as_str())
}

/// The index of the last `c` in `s`, or -1 when `c` does not occur.
pub open spec fn last_index(s: Seq<char>, c: char) -> int
    decreases s.len(),
{
    if s.len() == 0 {
        -1
    } else if s.last() == c {
        s.len() - 1
    } else {
        last_index(s.drop_last(), c)
    }
}

/// `s` cut to at most `max` characters: a text that fits is kept; a longer
/// one is cut at the last dash within its first `max` characters, or after
/// `max` characters when there is no dash.
pub open spec fn truncated(s: Seq<char>, max: int) -> Seq<char> {
    if s.len() <= max {
        s
    } else {
        let head = s.take(max);
        let dash = last_index(head, '-');
        if dash >= 0 {
            head.take(dash)
        } else {
            head
        }
    }
}

/// Cuts a branch name to at most `max` characters, at a dash if there is
/// one, so that no word is cut in the middle.
pub fn truncate(s: &str, max: usize) -> (out: String)
    ensures
        out@ == truncated(s@, max as int),
        out@.len() <= max || s@.len() <= max,
{
    let v = chars_of(s);
    if v.len() <= max {
        return string_of(&v);
    }
    let head = slice_of(&v, 0, max);
    assert(head@ == v@.take(max as int));
    let mut end: usize = head.len();
    assert(head@.take(end as int) == head@);
    while end > 0 && head[end - 1] != '-'
        invariant
            end <= head.len(),
            last_index(head@, '-') == last_index(head@.take(end as int), '-'),
        decreases end,
    {
        proof {
            assert(head@.take(end as int).drop_last() == head@.take(end - 1));
        }
        end = end - 1;
    }
    if end == 0 {
        assert(head@.take(0).len() == 0);
        string_of(&head)
    } else {
        assert(head@.take(end as int).last() == '-');
        let cut = slice_of(&head, 0, end - 1);
        assert(head@.subrange(0, end - 1) == head@.take(end - 1));
        string_of(&cut)
    }
}

/// A branch name, and the issue it was made from if there is one.
pub struct BranchResolution {
    pub branch: String,
    pub issue: Option<IssueContext>,
}

/// A label of a Linear issue.
pub struct LinearLabelSummary {
    pub name: String,
    pub color: Option<String>,
}

/// What is shown of a Linear issue when the operator picks one.
pub struct LinearIssueSummary {
    pub identifier: String,
    pub title: String,
    pub state_name: String,
    pub state_type: String,
    pub state_color: Option<String>,
    pub labels: Vec<LinearLabelSummary>,
}

/// The longest branch name made from a ticket, in characters.
pub const MAX_BRANCH_LEN: usize = 60;

/// The branch name for a ticket: the prefix, a dash and the slug of the
/// lowercased title, cut to the longest length allowed.
pub open spec fn ticket_branch(prefix: Seq<char>, lowered_title: Seq<char>) -> Seq<char> {
    truncated(prefix + seq!['-'] + slug_of(lowered_title), MAX_BRANCH_LEN as int)
}

/// Builds the branch name of a ticket from its prefix and its lowercased
/// title.
pub fn branch_from_parts(prefix: &str, lowered_title: &str) -> (branch: String)
    ensures
        branch@ == ticket_branch(prefix@, lowered_title@),
{
    let slug = slug_from_lowered(lowered_title);
    let mut name: Vec<char> = Vec::new();
    push_str(&mut name, prefix);
    name.push('-');
    push_str(&mut name, slug.as_str());
    assert(name@ =~= prefix@ + seq!['-'] + slug_of(lowered_title@));
    let full = string_of(&name);
    truncate(full.as_str(), MAX_BRANCH_LEN)
}

/// The branch name for a Linear issue: the lowercased identifier, a dash
/// and the slug of the title, cut to 60 characters.
pub fn branch_name_from_linear_issue(issue: &LinearIssueSummary) -> (branch: String)
    ensures
        branch@ == ticket_branch(lowercase_of(issue.identifier@), lowercase_of(issue.title@)),
{
    let prefix = issue.identifier.as_str().to_lowercase();
    let lowered = issue.title.as_str().to_lowercase();
    branch_from_parts(prefix.as_str(), lowered.as_str())
}

/// The names of a list of labels.
pub open spec fn label_names(labels: Seq<LinearLabelSummary>) -> Seq<Seq<char>> {
    Seq::new(labels.len(), |i: int| labels[i].name@)
}

/// The issue context recorded with a session that was started from a
/// Linear issue picked from the list.
pub fn issue_context_from_linear_summary(summary: &LinearIssueSummary) -> (context: IssueContext)
    ensures
        context.provider@ == "linear"@,
        context.identifier@ == summary.identifier@,
        context.title@ == summary.title@,
        context.state is Some && context.state->0@ == summary.state_name@,
        texts(context.labels@) == label_names(summary.labels@),
{
    let mut labels: Vec<String> = Vec::new();
    let mut i: usize = 0;
    while i < summary.labels.len()
        invariant
            i <= summary.labels.len(),
            texts(labels@) == label_names(summary.labels@).take(i as int),
        decreases summary.labels.len() - i,
    {
        let ghost before = texts(labels@);
        labels.push(summary.labels[i].name.clone());
        assert(texts(labels@) =~= before.push(summary.labels@[i as int].name@));
        assert(texts(labels@) =~= label_names(summary.labels@).take(i + 1));
        i = i + 1;
    }
    assert(label_names(summary.labels@).take(summary.labels.len() as int) == label_names(
        summary.labels@,
    ));
    IssueContext {
        provider: "linear".to_owned(),
        identifier: summary.identifier.clone(),
        title: summary.title.clone(),
        state: Some(summary.state_name.clone()),
        labels,
    }
}

/// What a Linear issue looked up by id resolves to: its branch name and
/// its context.
pub fn linear_resolution(
    identifier: String,
    title: String,
    state: Option<String>,
    labels: Vec<String>,
) -> (resolved: BranchResolution)
    ensures
        resolved.branch@ == ticket_branch(lowercase_of(identifier@), lowercase_of(title@)),
        resolved.issue is Some,
        resolved.issue->0.provider@ == "linear"@,
        resolved.issue->0.identifier == identifier,
        resolved.issue->0.title == title,
        resolved.issue->0.state == state,
        resolved.issue->0.labels == labels,
{
    let prefix = identifier.as_str().to_lowercase();
    let lowered = title.as_str().to_lowercase();
    let branch = branch_from_parts(prefix.as_str(), lowered.as_str());
    BranchResolution {
        branch,
        issue: Some(
            IssueContext { provider: "linear".to_owned(), identifier, title, state, labels },
        ),
    }
}

/// What a Sentry issue resolves to: the branch `sentry-<number>-<slug>`,
/// cut to 60 characters, and its context.
pub fn sentry_resolution(issue_id: &str, title: String) -> (resolved: BranchResolution)
    ensures
        resolved.branch@ == ticket_branch("sentry-"@ + issue_id@, lowercase_of(title@)),
        resolved.issue is Some,
        resolved.issue->0.provider@ == "sentry"@,
        resolved.issue->0.identifier@ == "sentry-"@ + issue_id@,
        resolved.issue->0.title == title,
        resolved.issue->0.state is None,
        resolved.issue->0.labels@.len() == 0,
{
    let mut id: Vec<char> = Vec::new();
    push_str(&mut id, "sentry-");
    push_str(&mut id, issue_id);
    let identifier = string_of(&id);
    let lowered = title.as_str().to_lowercase();
    let branch = branch_from_parts(identifier.as_str(), lowered.as_str());
    BranchResolution {
        branch,
        issue: Some(
            IssueContext {
                provider: "sentry".to_owned(),
                identifier,
                title,
                state: None,
                labels: Vec::new(),
            },
        ),
    }
}

/// What the operator's input refers to.
pub enum BranchInput {
    /// A Linear issue, by id.
    Linear { id: String },
    /// A Sentry issue, by organisation and number.
    Sentry { org: String, issue_id: String },
    /// A branch name as typed.
    Plain { branch: String },
}

/// What an input refers to, as plain values.
pub ghost enum InputKind {
    Linear { id: Seq<char> },
    Sentry { org: Seq<char>, issue_id: Seq<char> },
    Plain { branch: Seq<char> },
}

/// How a trimmed input is read: a Linear address first, then a Sentry
/// address, then a bare Linear id, and anything else as a branch name.
pub open spec fn input_kind(input: Seq<char>) -> InputKind {
    if linear_url_id(input) is Some {
        InputKind::Linear { id: linear_url_id(input)->0 }
    } else if sentry_url_parts(input) is Some {
        match sentry_url_parts(input) {
            Some((org, issue_id)) => InputKind::Sentry { org, issue_id },
            None => InputKind::Plain { branch: input },
        }
    } else if linear_id(input) {
        InputKind::Linear { id: input }
    } else {
        InputKind::Plain { branch: input }
    }
}

/// The plain values of a reading.
pub open spec fn kind_of(input: BranchInput) -> InputKind {
    match input {
        BranchInput::Linear { id } => InputKind::Linear { id: id@ },
        BranchInput::Sentry { org, issue_id } => InputKind::Sentry {
            org: org@,
            issue_id: issue_id@,
        },
        BranchInput::Plain { branch } => InputKind::Plain { branch: branch@ },
    }
}

/// Reads an input that carries no white space at its ends.
pub fn classify_trimmed(input: &str) -> (read: BranchInput)
    ensures
        kind_of(read) == input_kind(input@),
{
    match parse_linear_url(input) {
        Some(id) => {
            return BranchInput::Linear { id };
        },
        None => {},
    }
    match parse_sentry_url(input) {
        Some((org, issue_id)) => {
            return BranchInput::Sentry { org, issue_id };
        },
        None => {},
    }
    if is_linear_id(input) {
        BranchInput::Linear { id: input.to_owned() }
    } else {
        BranchInput::Plain { branch: input.to_owned() }
    }
}

/// Reads what the operator typed for a branch: white space at the ends
/// is dropped, and the rest is told apart as a ticket reference or a
/// plain branch name.
pub fn classify_branch_input(input: &str) -> (read: BranchInput)
    ensures
        kind_of(read) == input_kind(trimmed(input@)),
{
    let text = trim_text(input);
    classify_trimmed(text.as_str())
}

/// The Sentry organisation to ask: the configured one, else the one named
/// in the address, else none.
pub fn resolve_sentry_org(config: &SeshConfig, url_org: Option<&str>) -> (org: String)
    ensures
        org@ == if config.sentry is Some {
            config.sentry->0.org@
        } else if url_org is Some {
            url_org->0@
        } else {
            Seq::<char>::empty()
        },
{
    match &config.sentry {
        Some(s) => s.org.clone(),
        None => match url_org {
            Some(o) => o.to_owned(),
            None => String::new(),
        },
    }
}

/// The rank of a workflow state in the ticket list: work in progress
/// first, then planned work, then the backlog, then everything else.
pub open spec fn state_rank(state_type: Seq<char>) -> u8 {
    if state_type == "started"@ {
        0
    } else if state_type == "unstarted"@ {
        1
    } else if state_type == "backlog"@ {
        2
    } else {
        3
    }
}

/// The rank of a workflow state in the ticket list.
pub fn state_sort_key(state_type: &str) -> (key: u8)
    ensures
        key == state_rank(state_type@),
{
    if same_text(state_type, "started") {
        0
    } else if same_text(state_type, "unstarted") {
        1
    } else if same_text(state_type, "backlog") {
        2
    } else {
        3
    }
}

/// The ranks of the states of a list of issues.
pub open spec fn state_ranks(issues: Seq<LinearIssueSummary>) -> Seq<int> {
    Seq::new(issues.len(), |i: int| state_rank(issues[i].state_type@) as int)
}

/// The order in which fetched issues are listed: by the rank of their
/// state, issues of one rank in the order in which they were fetched.
/// The result gives, for each place in the list, the position of the
/// issue that goes there.
pub fn issue_order(issues: &Vec<LinearIssueSummary>) -> (order: Vec<usize>)
    ensures
        is_stable_order(state_ranks(issues@), positions(order@)),
{
    let mut keys: Vec<i128> = Vec::new();
    let mut i: usize = 0;
    while i < issues.len()
        invariant
            i <= issues.len(),
            keys.len() == i,
            forall|j: int| 0 <= j < i ==> #[trigger] keys@[j] as int == state_rank(issues@[j].state_type@) as int,
        decreases issues.len() - i,
    {
        let key = state_sort_key(issues[i].state_type.as_str());
        keys.push(key as i128);
        i = i + 1;
    }
    let order = stable_order(&keys);
    assert(key_values(keys@) =~= state_ranks(issues@));
    order
}

/// The value of a hexadecimal digit.
pub open spec fn hex_value(c: char) -> Option<int> {
    if '0' <= c && c <= '9' {
        Some(c as int - '0' as int)
    } else if 'a' <= c && c <= 'f' {
        Some(c as int - 'a' as int + 10)
    } else if 'A' <= c && c <= 'F' {
        Some(c as int - 'A' as int + 10)
    } else {
        None
    }
}

/// The value of two characters read as a hexadecimal number: two digits,
/// or a plus sign and one digit.
pub open spec fn hex_pair(hi: char, lo: char) -> Option<int> {
    if hex_value(lo) is None {
        None
    } else if hi == '+' {
        Some(hex_value(lo)->0)
    } else if hex_value(hi) is Some {
        Some(16 * hex_value(hi)->0 + hex_value(lo)->0)
    } else {
        None
    }
}

/// The red, green and blue parts of a colour written as six hexadecimal
/// digits, with or without a leading `#`.
pub open spec fn hex_color(s: Seq<char>) -> Option<(int, int, int)> {
    let digits = if s.len() > 0 && s[0] == '#' { s.skip(1) } else { s };
    if digits.len() != 6 {
        None
    } else {
        let r = hex_pair(digits[0], digits[1]);
        let g = hex_pair(digits[2], digits[3]);
        let b = hex_pair(digits[4], digits[5]);
        if r is Some && g is Some && b is Some {
            Some((r->0, g->0, b->0))
        } else {
            None
        }
    }
}

fn hex_digit(c: char) -> (v: Option<u8>)
    ensures
        v is Some <==> hex_value(c) is Some,
        v is Some ==> v->0 as int == hex_value(c)->0 && v->0 < 16,
{
    if c >= '0' && c <= '9' {
        Some(((c as u32) - ('0' as u32)) as u8)
    } else if c >= 'a' && c <= 'f' {
        Some(((c as u32) - ('a' as u32) + 10) as u8)
    } else if c >= 'A' && c <= 'F' {
        Some(((c as u32) - ('A' as u32) + 10) as u8)
    } else {
        None
    }
}

fn hex_byte(hi: char, lo: char) -> (v: Option<u8>)
    ensures
        v is Some <==> hex_pair(hi, lo) is Some,
        v is Some ==> v->0 as int == hex_pair(hi, lo)->0,
{
    match hex_digit(lo) {
        None => None,
        Some(low) => {
            if hi == '+' {
                Some(low)
            } else {
                match hex_digit(hi) {
                    Some(high) => Some(high * 16 + low),
                    None => None,
                }
            }
        },
    }
}

/// Reads a colour such as `#ff8800` or `ff8800`.
pub fn parse_hex_color(hex: &str) -> (rgb: Option<(u8, u8, u8)>)
    ensures
        rgb is Some <==> hex_color(hex@) is Some,
        match rgb {
            Some((r, g, b)) => hex_color(hex@) == Some((r as int, g as int, b as int)),
            None => true,
        },
{
    let v = chars_of(hex);
    let digits = if v.len() > 0 && v[0] == '#' {
        let d = slice_of(&v, 1, v.len());
        assert(d@ == v@.skip(1));
        d
    } else {
        v
    };
    if digits.len() != 6 {
        return None;
    }
    let r = hex_byte(digits[0], digits[1]);
    let g = hex_byte(digits[2], digits[3]);
    let b = hex_byte(digits[4], digits[5]);
    match (r, g, b) {
        (Some(r), Some(g), Some(b)) => Some((r, g, b)),
        _ => None,
    }
}

/// `text` wrapped in the escape sequence that sets a 24-bit foreground
/// colour and resets it afterwards.
pub open spec fn colored(text: Seq<char>, r: int, g: int, b: int) -> Seq<char> {
    seq!['\x1b', '[', '3', '8', ';', '2', ';'] + decimal(r as nat) + seq![';'] + decimal(g as nat)
        + seq![';'] + decimal(b as nat) + seq!['m'] + text + seq!['\x1b', '[', '0', 'm']
}

/// Renders `text` in the colour `hex` if that is a readable colour, and
/// unchanged otherwise.
pub fn color_text(text: &str, hex: Option<&str>) -> (out: String)
    ensures
        out@ == match hex {
            Some(h) => match hex_color(h@) {
                Some((r, g, b)) => colored(text@, r, g, b),
                None => text@,
            },
            None => text@,
        },
{
    let rgb = match hex {
        Some(h) => parse_hex_color(h),
        None => None,
    };
    match rgb {
        None => text.to_owned(),
        Some((r, g, b)) => {
            let mut out: Vec<char> = Vec::new();
            out.push('\x1b');
            out.push('[');
            out.push('3');
            out.push('8');
            out.push(';');
            out.push('2');
            out.push(';');
            assert(out@ == seq!['\x1b', '[', '3', '8', ';', '2', ';']);
            let red = decimal_digits(r as u128);
            push_all(&mut out, &red);
            out.push(';');
            let green = decimal_digits(g as u128);
            push_all(&mut out, &green);
            out.push(';');
            let blue = decimal_digits(b as u128);
            push_all(&mut out, &blue);
            out.push('m');
            push_str(&mut out, text);
            let ghost body = out@;
            out.push('\x1b');
            out.push('[');
            out.push('0');
            out.push('m');
            assert(out@ == body + seq!['\x1b', '[', '0', 'm']);
            string_of(&out)
        },
    }
}

/// A token, or nothing for an empty text.
pub fn token_from_trimmed(text: &str) -> (token: Option<String>)
    ensures
        token is Some <==> text@.len() > 0,
        token is Some ==> token->0@ == text@,
{
    if text.is_empty() {
        None
    } else {
        Some(text.to_owned())
    }
}

/// A token as stored in a file: the file's content without white space at
/// its ends, or nothing when that leaves it empty.
pub fn token_from_file(contents: &str) -> (token: Option<String>)
    ensures
        token is Some <==> trimmed(contents@).len() > 0,
        token is Some ==> token->0@ == trimmed(contents@),
{
    let text = trim_text(contents);
    token_from_trimmed(text.as_str())
}

} // verus!
