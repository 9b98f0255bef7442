//! The context document of a session and the files that are brought into
//! it: what to write and what to copy or link where. Writing, copying and
//! linking are left to the caller.

use vstd::prelude::*;
use crate::config::SeshConfig;
use crate::paths::{join_path, joined_path};
use crate::session::{IssueContext, SessionRepo};
use crate::text::{join, joined, push_str, string_of, texts};

verus! {

/// The lines that describe an issue.
pub open spec fn issue_section(issue: IssueContext) -> Seq<char> {
    "\n## Issue\n\n"@ + "- **Provider**: "@ + issue.provider@ + "\n"@ + "- **Identifier**: "@
        + issue.identifier@ + "\n"@ + "- **Title**: "@ + issue.title@ + "\n"@ + (match issue.state {
        Some(state) => "- **State**: "@ + state@ + "\n"@,
        None => Seq::<char>::empty(),
    }) + (if issue.labels@.len() > 0 {
        "- **Labels**: "@ + joined(texts(issue.labels@), ", "@) + "\n"@
    } else {
        Seq::<char>::empty()
    })
}

/// The lines that list the first `upto` repositories with their
/// worktrees.
pub open spec fn repo_lines(repos: Seq<SessionRepo>, upto: int) -> Seq<char>
    decreases upto,
{
    if upto <= 0 {
        Seq::empty()
    } else {
        repo_lines(repos, upto - 1) + "- **"@ + repos[upto - 1].name@ + "**: `"@ + repos[upto
            - 1].worktree_path@ + "`\n"@
    }
}

/// The context document: a heading, the issue if the session has one, the
/// base branch if one is known, and the repositories with their
/// worktrees.
pub open spec fn context_text(
    title: Seq<char>,
    issue: Option<IssueContext>,
    base_branch: Option<Seq<char>>,
    repos: Seq<SessionRepo>,
) -> Seq<char> {
    "# Session: "@ + title + "\n"@ + (match issue {
        Some(i) => issue_section(i),
        None => Seq::<char>::empty(),
    }) + (match base_branch {
        Some(base) => "\n## Branch Info\n\n"@ + "- **Base branch**: "@ + base + "\n"@,
        None => Seq::<char>::empty(),
    }) + "\n## Repositories\n\n"@ + repo_lines(repos, repos.len() as int)
}

fn push_line(out: &mut Vec<char>, tag: &str, value: &str)
    ensures
        final(out)@ == old(out)@ + (tag@ + value@ + "\n"@),
{
    let mut line: Vec<char> = Vec::new();
    push_str(&mut line, tag);
    push_str(&mut line, value);
    push_str(&mut line, "\n");
    crate::text::push_all(out, &line);
}

fn issue_lines(issue: &IssueContext) -> (lines: Vec<char>)
    ensures
        lines@ == issue_section(*issue),
{
    let mut out: Vec<char> = Vec::new();
    push_str(&mut out, "\n## Issue\n\n");
    let ghost s0 = out@;
    push_line(&mut out, "- **Provider**: ", issue.provider.as_str());
    let ghost s1 = out@;
    push_line(&mut out, "- **Identifier**: ", issue.identifier.as_str());
    let ghost s2 = out@;
    push_line(&mut out, "- **Title**: ", issue.title.as_str());
    let ghost s3 = out@;
    assert(s3 =~= "\n## Issue\n\n"@ + "- **Provider**: "@ + issue.provider@ + "\n"@
        + "- **Identifier**: "@ + issue.identifier@ + "\n"@ + "- **Title**: "@ + issue.title@
        + "\n"@);
    match &issue.state {
        Some(state) => {
            push_line(&mut out, "- **State**: ", state.as_str());
        },
        None => {
            assert(out@ =~= s3 + Seq::<char>::empty());
        },
    }
    let ghost s4 = out@;
    if issue.labels.len() > 0 {
        let all = join(&issue.labels, ", ");
        push_line(&mut out, "- **Labels**: ", all.as_str());
    } else {
        assert(out@ =~= s4 + Seq::<char>::empty());
    }
    out
}

fn repo_list(repos: &Vec<SessionRepo>) -> (lines: Vec<char>)
    ensures
        lines@ == repo_lines(repos@, repos.len() as int),
{
    let mut out: Vec<char> = Vec::new();
    let mut i: usize = 0;
    while i < repos.len()
        invariant
            i <= repos.len(),
            out@ == repo_lines(repos@, i as int),
        decreases repos.len() - i,
    {
        let ghost before = out@;
        let mut line: Vec<char> = Vec::new();
        push_str(&mut line, "- **");
        push_str(&mut line, repos[i].name.as_str());
        push_str(&mut line, "**: `");
        push_str(&mut line, repos[i].worktree_path.as_str());
        push_str(&mut line, "`\n");
        crate::text::push_all(&mut out, &line);
        assert(out@ =~= before + "- **"@ + repos@[i as int].name@ + "**: `"@
            + repos@[i as int].worktree_path@ + "`\n"@);
        i = i + 1;
    }
    out
}

/// Writes the context document of a session.
pub fn context_document(
    title: &str,
    issue: Option<&IssueContext>,
    base_branch: Option<&str>,
    repos: &Vec<SessionRepo>,
) -> (text: String)
    ensures
        text@ == context_text(
            title@,
            match issue {
                Some(i) => Some(*i),
                None => None,
            },
            match base_branch {
                Some(b) => Some(b@),
                None => None,
            },
            repos@,
        ),
{
    let mut head: Vec<char> = Vec::new();
    push_str(&mut head, "# Session: ");
    push_str(&mut head, title);
    push_str(&mut head, "\n");
    let about: Vec<char> = match issue {
        Some(i) => issue_lines(i),
        None => Vec::new(),
    };
    let mut base: Vec<char> = Vec::new();
    match base_branch {
        Some(b) => {
            push_str(&mut base, "\n## Branch Info\n\n");
            push_str(&mut base, "- **Base branch**: ");
            push_str(&mut base, b);
            push_str(&mut base, "\n");
        },
        None => {},
    }
    let list = repo_list(repos);
    let mut out: Vec<char> = Vec::new();
    crate::text::push_all(&mut out, &head);
    crate::text::push_all(&mut out, &about);
    crate::text::push_all(&mut out, &base);
    push_str(&mut out, "\n## Repositories\n\n");
    crate::text::push_all(&mut out, &list);
    proof {
        assert(head@ =~= "# Session: "@ + title@ + "\n"@);
        assert(about@ =~= match issue {
            Some(i) => issue_section(*i),
            None => Seq::<char>::empty(),
        });
        assert(base@ =~= match base_branch {
            Some(b) => "\n## Branch Info\n\n"@ + "- **Base branch**: "@ + b@ + "\n"@,
            None => Seq::<char>::empty(),
        });
        assert(out@ == head@ + about@ + base@ + "\n## Repositories\n\n"@ + list@);
    }
    string_of(&out)
}

/// The directory of the context document: `<session_dir>/context`.
pub fn context_dir(session_dir: &str) -> (dir: String)
    ensures
        dir@ == joined_path(session_dir@, "context"@),
{
    join_path(session_dir, "context")
}

/// How a file is brought into a session.
#[derive(Debug, Clone, Copy, PartialEq, Eq, Structural)]
pub enum Bring {
    Copy,
    Symlink,
}

/// A file to bring from `source` to `target`, if `source` exists.
#[derive(Debug, Clone)]
pub struct FileOp {
    pub how: Bring,
    pub item: String,
    pub source: String,
    pub target: String,
}

/// A file to bring, as plain values.
pub ghost struct Carry {
    pub how: Bring,
    pub item: Seq<char>,
    pub source: Seq<char>,
    pub target: Seq<char>,
}

/// The plain values of a list of files to bring.
pub open spec fn carries_of(ops: Seq<FileOp>) -> Seq<Carry> {
    Seq::new(
        ops.len(),
        |i: int|
            Carry {
                how: ops[i].how,
                item: ops[i].item@,
                source: ops[i].source@,
                target: ops[i].target@,
            },
    )
}

/// Each of `items` brought from under `from` to under `to`.
pub open spec fn carried(how: Bring, items: Seq<String>, from: Seq<char>, to: Seq<char>) -> Seq<Carry> {
    Seq::new(
        items.len(),
        |i: int|
            Carry {
                how,
                item: items[i]@,
                source: joined_path(from, items[i]@),
                target: joined_path(to, items[i]@),
            },
    )
}

/// Lists each of `items` as a file to bring from under `from` to under
/// `to`.
pub fn bring_items(how: Bring, items: &Vec<String>, from: &str, to: &str) -> (ops: Vec<FileOp>)
    ensures
        carries_of(ops@) == carried(how, items@, from@, to@),
{
    let mut ops: Vec<FileOp> = Vec::new();
    let mut i: usize = 0;
    while i < items.len()
        invariant
            i <= items.len(),
            carries_of(ops@) == carried(how, items@, from@, to@).take(i as int),
        decreases items.len() - i,
    {
        let ghost before = carries_of(ops@);
        let op = FileOp {
            how,
            item: items[i].clone(),
            source: join_path(from, items[i].as_str()),
            target: join_path(to, items[i].as_str()),
        };
        ops.push(op);
        assert(carries_of(ops@) =~= before.push(carried(how, items@, from@, to@)[i as int]));
        assert(carries_of(ops@) =~= carried(how, items@, from@, to@).take(i + 1));
        i = i + 1;
    }
    assert(carried(how, items@, from@, to@).take(items.len() as int) == carried(
        how,
        items@,
        from@,
        to@,
    ));
    ops
}

/// The files that the settings bring into the worktree of `repo`: its
/// copies first, then its links, each from the repository to the
/// worktree. None for a repository without settings.
pub open spec fn repo_carries(config: SeshConfig, repo: SessionRepo) -> Seq<Carry> {
    if config.repos@.dom().contains(repo.name@) {
        let rc = config.repos@[repo.name@];
        carried(Bring::Copy, rc.copy@, repo.original_repo_path@, repo.worktree_path@) + carried(
            Bring::Symlink,
            rc.symlink@,
            repo.original_repo_path@,
            repo.worktree_path@,
        )
    } else {
        Seq::empty()
    }
}

/// Lists the files to bring into the worktree of one repository.
pub fn repo_file_ops(config: &SeshConfig, repo: &SessionRepo) -> (ops: Vec<FileOp>)
    ensures
        carries_of(ops@) == repo_carries(*config, *repo),
{
    match config.repos.get(repo.name.as_str()) {
        None => {
            let ops: Vec<FileOp> = Vec::new();
            assert(carries_of(ops@) =~= Seq::<Carry>::empty());
            ops
        },
        Some(rc) => {
            let mut ops = bring_items(
                Bring::Copy,
                &rc.copy,
                repo.original_repo_path.as_str(),
                repo.worktree_path.as_str(),
            );
            let ghost first = carries_of(ops@);
            let mut links = bring_items(
                Bring::Symlink,
                &rc.symlink,
                repo.original_repo_path.as_str(),
                repo.worktree_path.as_str(),
            );
            let ghost second = carries_of(links@);
            ops.append(&mut links);
            assert(carries_of(ops@) =~= first + second);
            ops
        },
    }
}

/// Lists the files that the settings copy from the parent directory into
/// the session directory.
pub fn session_file_ops(config: &SeshConfig, parent_dir: &str, session_dir: &str) -> (ops: Vec<
    FileOp,
>)
    ensures
        carries_of(ops@) == carried(Bring::Copy, config.session.copy@, parent_dir@, session_dir@),
{
    bring_items(Bring::Copy, &config.session.copy, parent_dir, session_dir)
}

/// Lists the shared context files to link from the parent directory into
/// the session's context directory.
pub fn shared_context_links(config: &SeshConfig, parent_dir: &str, session_dir: &str) -> (ops: Vec<
    FileOp,
>)
    ensures
        carries_of(ops@) == carried(
            Bring::Symlink,
            config.session.shared_context@,
            parent_dir@,
            joined_path(session_dir@, "context"@),
        ),
{
    let dir = context_dir(session_dir);
    bring_items(Bring::Symlink, &config.session.shared_context, parent_dir, dir.as_str())
}

} // verus!
