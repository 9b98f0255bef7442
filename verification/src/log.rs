//! The logs of background scripts: what a log request asks for, which
//! file a label means, and what state the script behind a log is in.

use vstd::prelude::*;
use crate::session::BackgroundPid;
use crate::text::{chars_of, contains, ends_with, has_substring, same_text, slice_of, string_of};

verus! {

/// What a log request asks for.
#[derive(Debug, Clone)]
pub enum LogRequest {
    /// List the logs of the session.
    List,
    /// Show the log that `label` means, and keep following it if asked.
    View { label: String, follow: bool },
}

/// Why a log request cannot be served.
#[derive(Debug, Clone)]
pub enum LogError {
    /// The session has no logs directory.
    NoLogs,
    /// No log file matches the label.
    NoMatch,
    /// Several log files match the label.
    Ambiguous { matches: Vec<String> },
}

/// Reads a log request: without a logs directory there is nothing to
/// show; without a script label the logs are listed; with one, that log
/// is shown.
pub fn run(has_log_dir: bool, script: Option<&str>, follow: bool) -> (request: Result<
    LogRequest,
    LogError,
>)
    ensures
        !has_log_dir ==> request is Err && request->Err_0 is NoLogs,
        has_log_dir && script is None ==> request is Ok && request->Ok_0 is List,
        has_log_dir && script is Some ==> request is Ok && request->Ok_0 is View
            && request->Ok_0->View_label@ == script->0@ && request->Ok_0->View_follow == follow,
{
    if !has_log_dir {
        return Err(LogError::NoLogs);
    }
    match script {
        None => Ok(LogRequest::List),
        Some(label) => Ok(LogRequest::View { label: label.to_owned(), follow }),
    }
}

/// The state of the script behind a log.
#[derive(Debug, Clone, Copy, PartialEq, Eq, Structural)]
pub enum LogStatus {
    /// The recorded process is alive.
    Running,
    /// The recorded process is gone.
    Stopped,
    /// No process is recorded under the log's label.
    Unknown,
}

/// Whether `found` is the first process recorded under `label`, or `None`
/// when there is none.
pub open spec fn is_first_labelled(pids: Seq<BackgroundPid>, label: Seq<char>, found: Option<int>) -> bool {
    match found {
        Some(i) => 0 <= i < pids.len() && pids[i].label@ == label && forall|j: int|
            0 <= j < i ==> (#[trigger] pids[j]).label@ != label,
        None => forall|j: int| 0 <= j < pids.len() ==> (#[trigger] pids[j]).label@ != label,
    }
}

/// The process recorded under a log's label.
pub fn log_entry(pids: &Vec<BackgroundPid>, label: &str) -> (found: Option<usize>)
    ensures
        is_first_labelled(
            pids@,
            label@,
            match found {
                Some(i) => Some(i as int),
                None => None,
            },
        ),
{
    let mut i: usize = 0;
    while i < pids.len()
        invariant
            i <= pids.len(),
            forall|j: int| 0 <= j < i ==> (#[trigger] pids@[j]).label@ != label@,
        decreases pids.len() - i,
    {
        if same_text(pids[i].label.as_str(), label) {
            return Some(i);
        }
        i = i + 1;
    }
    None
}

/// The state shown for a log: unknown when no process is recorded under
/// its label, else running or stopped as the probe of that process says.
pub fn log_status(recorded: bool, alive: bool) -> (status: LogStatus)
    ensures
        status == if !recorded {
            LogStatus::Unknown
        } else if alive {
            LogStatus::Running
        } else {
            LogStatus::Stopped
        },
{
    if !recorded {
        LogStatus::Unknown
    } else if alive {
        LogStatus::Running
    } else {
        LogStatus::Stopped
    }
}

/// The label of a log file: its name without `.log`, for a name that has
/// something before `.log`.
pub open spec fn label_of_log(file_name: Seq<char>) -> Option<Seq<char>> {
    let suffix = seq!['.', 'l', 'o', 'g'];
    if file_name.len() > 4 && suffix.is_suffix_of(file_name) {
        Some(file_name.take(file_name.len() - 4))
    } else {
        None
    }
}

fn dot_log() -> (suffix: Vec<char>)
    ensures
        suffix@ == seq!['.', 'l', 'o', 'g'],
{
    let mut suffix: Vec<char> = Vec::new();
    suffix.push('.');
    suffix.push('l');
    suffix.push('o');
    suffix.push('g');
    suffix
}

/// The label that a file in the logs directory is listed under, if it is
/// a log file.
pub fn log_label(file_name: &str) -> (label: Option<String>)
    ensures
        label is Some <==> label_of_log(file_name@) is Some,
        label is Some ==> label->0@ == label_of_log(file_name@)->0,
{
    let v = chars_of(file_name);
    let suffix = dot_log();
    if v.len() > 4 && ends_with(&v, &suffix) {
        let stem = slice_of(&v, 0, v.len() - 4);
        assert(stem@ == v@.take(v.len() - 4));
        Some(string_of(&stem))
    } else {
        None
    }
}

/// Whether a file name is a candidate for a label that names no log
/// exactly: it ends in `.log` and holds the label somewhere.
pub open spec fn is_candidate(file_name: Seq<char>, label: Seq<char>) -> bool {
    seq!['.', 'l', 'o', 'g'].is_suffix_of(file_name) && has_substring(file_name, label)
}

/// The positions below `upto` of the candidates for `label`.
pub open spec fn candidates(names: Seq<String>, label: Seq<char>, upto: int) -> Seq<int>
    decreases upto,
{
    if upto <= 0 {
        Seq::empty()
    } else {
        let rest = candidates(names, label, upto - 1);
        if is_candidate(names[upto - 1]@, label) {
            rest.push(upto - 1)
        } else {
            rest
        }
    }
}

/// Whether some file is called exactly `<label>.log`.
pub open spec fn has_exact(names: Seq<String>, label: Seq<char>) -> bool {
    exists|i: int| 0 <= i < names.len() && (#[trigger] names[i])@ == label + seq!['.', 'l', 'o', 'g']
}

/// Finds the log file that a label means among the files of the logs
/// directory: the file `<label>.log` if there is one; otherwise the one
/// log file whose name holds the label. No such file, or more than one,
/// is an error; the error lists the names that match.
pub fn resolve_log(names: &Vec<String>, label: &str) -> (file: Result<String, LogError>)
    ensures
        has_exact(names@, label@) ==> file is Ok && file->Ok_0@ == label@ + seq![
            '.',
            'l',
            'o',
            'g',
        ],
        !has_exact(names@, label@) ==> ({
            let found = candidates(names@, label@, names.len() as int);
            &&& found.len() == 0 ==> file is Err && file->Err_0 is NoMatch
            &&& found.len() == 1 ==> file is Ok && file->Ok_0@ == names@[found[0]]@
            &&& found.len() > 1 ==> file is Err && file->Err_0 is Ambiguous
                && file->Err_0->Ambiguous_matches@.len() == found.len() && forall|k: int|
                0 <= k < found.len() ==> (#[trigger] file->Err_0->Ambiguous_matches@[k])@
                    == names@[found[k]]@
        }),
{
    let suffix = dot_log();
    let wanted_label = chars_of(label);
    let mut exact: Vec<char> = Vec::new();
    crate::text::push_all(&mut exact, &wanted_label);
    crate::text::push_all(&mut exact, &suffix);
    let mut i: usize = 0;
    while i < names.len()
        invariant
            i <= names.len(),
            exact@ == label@ + seq!['.', 'l', 'o', 'g'],
            forall|j: int| 0 <= j < i ==> (#[trigger] names@[j])@ != exact@,
        decreases names.len() - i,
    {
        let name = chars_of(names[i].as_str());
        if crate::text::same_chars(&name, &exact) {
            return Ok(string_of(&exact));
        }
        i = i + 1;
    }
    assert(!has_exact(names@, label@));
    let mut matches: Vec<String> = Vec::new();
    let ghost mut found: Seq<int> = Seq::empty();
    let mut k: usize = 0;
    while k < names.len()
        invariant
            k <= names.len(),
            suffix@ == seq!['.', 'l', 'o', 'g'],
            wanted_label@ == label@,
            found == candidates(names@, label@, k as int),
            matches.len() == found.len(),
            forall|m: int|
                0 <= m < found.len() ==> 0 <= #[trigger] found[m] < k && matches@[m]@
                    == names@[found[m]]@,
        decreases names.len() - k,
    {
        let name = chars_of(names[k].as_str());
        if ends_with(&name, &suffix) && contains(&name, &wanted_label) {
            matches.push(names[k].clone());
            proof {
                found = found.push(k as int);
            }
        }
        k = k + 1;
    }
    if matches.len() == 0 {
        Err(LogError::NoMatch)
    } else if matches.len() == 1 {
        Ok(matches[0].clone())
    } else {
        Err(LogError::Ambiguous { matches })
    }
}

} // verus!
