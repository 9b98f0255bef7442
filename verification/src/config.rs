//! The settings read from `sesh.toml`.

use vstd::prelude::*;
use crate::names::NameMap;
use crate::text::{push_all, push_str, string_of};

verus! {

/// A script to run, and whether it keeps running in the background.
#[derive(Debug, Clone)]
pub struct ScriptEntry {
    pub path: String,
    pub background: bool,
}

/// Settings of the Sentry integration.
#[derive(Debug, Clone)]
pub struct SentryConfig {
    pub org: String,
}

/// Settings that hold for every session.
#[derive(Debug, Clone)]
pub struct SessionConfig {
    pub base_branch: String,
    pub branch_prefix: Option<String>,
    pub shared_context: Vec<String>,
    pub copy: Vec<String>,
}

impl Default for SessionConfig {
    fn default() -> (config: Self)
        ensures
            config.base_branch@ == "main"@,
            config.branch_prefix is None,
            config.shared_context@.len() == 0,
            config.copy@.len() == 0,
    {
        SessionConfig {
            base_branch: "main".to_owned(),
            branch_prefix: None,
            shared_context: Vec::new(),
            copy: Vec::new(),
        }
    }
}

/// The scripts run for a session as a whole.
#[derive(Debug, Clone)]
pub struct ScriptsConfig {
    pub setup: Vec<ScriptEntry>,
    pub teardown: Vec<ScriptEntry>,
}

impl Default for ScriptsConfig {
    fn default() -> (config: Self)
        ensures
            config.setup@.len() == 0,
            config.teardown@.len() == 0,
    {
        ScriptsConfig { setup: Vec::new(), teardown: Vec::new() }
    }
}

/// An MCP server to announce in every worktree.
#[derive(Debug, Clone)]
pub struct McpServer {
    pub name: String,
    pub kind: String,
    pub url: String,
}

/// The MCP servers to announce.
#[derive(Debug, Clone)]
pub struct McpConfig {
    pub servers: Vec<McpServer>,
}

impl Default for McpConfig {
    fn default() -> (config: Self)
        ensures
            config.servers@.len() == 0,
    {
        McpConfig { servers: Vec::new() }
    }
}

/// Settings of one repository.
#[derive(Debug, Clone)]
pub struct RepoConfig {
    pub base_branch: Option<String>,
    pub copy: Vec<String>,
    pub symlink: Vec<String>,
    pub skip: bool,
    pub exclusive: bool,
    pub setup: Vec<ScriptEntry>,
    pub teardown: Vec<ScriptEntry>,
}

impl Default for RepoConfig {
    fn default() -> (config: Self)
        ensures
            config.base_branch is None,
            config.copy@.len() == 0,
            config.symlink@.len() == 0,
            !config.skip,
            !config.exclusive,
            config.setup@.len() == 0,
            config.teardown@.len() == 0,
    {
        RepoConfig {
            base_branch: None,
            copy: Vec::new(),
            symlink: Vec::new(),
            skip: false,
            exclusive: false,
            setup: Vec::new(),
            teardown: Vec::new(),
        }
    }
}

/// All settings.
pub struct SeshConfig {
    pub session: SessionConfig,
    pub scripts: ScriptsConfig,
    pub mcp: McpConfig,
    pub repos: NameMap<RepoConfig>,
    pub presets: NameMap<Vec<String>>,
    pub sentry: Option<SentryConfig>,
}

impl Default for SeshConfig {
    fn default() -> (config: Self)
        ensures
            config.session.base_branch@ == "main"@,
            config.session.branch_prefix is None,
            config.session.shared_context@.len() == 0,
            config.session.copy@.len() == 0,
            config.scripts.setup@.len() == 0,
            config.scripts.teardown@.len() == 0,
            config.mcp.servers@.len() == 0,
            config.repos@ == Map::<Seq<char>, RepoConfig>::empty(),
            config.presets@ == Map::<Seq<char>, Vec<String>>::empty(),
            config.sentry is None,
    {
        SeshConfig {
            session: SessionConfig::default(),
            scripts: ScriptsConfig::default(),
            mcp: McpConfig::default(),
            repos: NameMap::new(),
            presets: NameMap::new(),
            sentry: None,
        }
    }
}

/// Whether the settings mark `repo` as exclusive: usable by one session
/// at a time. A repository without settings is not.
pub open spec fn marked_exclusive(repos: Map<Seq<char>, RepoConfig>, repo: Seq<char>) -> bool {
    repos.dom().contains(repo) && repos[repo].exclusive
}

/// Whether the settings ask to leave `repo` out of the default selection.
pub open spec fn marked_skip(repos: Map<Seq<char>, RepoConfig>, repo: Seq<char>) -> bool {
    repos.dom().contains(repo) && repos[repo].skip
}

/// The branch that worktrees of `repo` start from: the override given for
/// the run, else the repository's own setting, else the general one.
pub open spec fn base_branch_of(
    config: SeshConfig,
    repo: Seq<char>,
    from: Option<Seq<char>>,
) -> Seq<char> {
    if from is Some {
        from->0
    } else if config.repos@.dom().contains(repo) && config.repos@[repo].base_branch is Some {
        config.repos@[repo].base_branch->0@
    } else {
        config.session.base_branch@
    }
}

impl SeshConfig {
    /// Whether `repo_name` is marked exclusive.
    pub fn is_exclusive(&self, repo_name: &str) -> (yes: bool)
        ensures
            yes == marked_exclusive(self.repos@, repo_name@),
    {
        match self.repos.get(repo_name) {
            Some(rc) => rc.exclusive,
            None => false,
        }
    }

    /// Whether `repo_name` is left out of the default selection.
    pub fn is_skipped(&self, repo_name: &str) -> (yes: bool)
        ensures
            yes == marked_skip(self.repos@, repo_name@),
    {
        match self.repos.get(repo_name) {
            Some(rc) => rc.skip,
            None => false,
        }
    }

    /// The branch that worktrees of `repo_name` start from.
    pub fn base_branch_for(&self, repo_name: &str, from: Option<&str>) -> (base: String)
        ensures
            base@ == base_branch_of(
                *self,
                repo_name@,
                match from {
                    Some(f) => Some(f@),
                    None => None,
                },
            ),
    {
        match from {
            Some(f) => f.to_owned(),
            None => {
                match self.repos.get(repo_name) {
                    Some(rc) => match &rc.base_branch {
                        Some(b) => b.clone(),
                        None => self.session.base_branch.clone(),
                    },
                    None => self.session.base_branch.clone(),
                }
            },
        }
    }
}

/// An MCP server that a first settings file can announce.
#[derive(Debug, Clone, Copy, PartialEq, Eq, Structural)]
pub enum McpPreset {
    Sentry,
    Linear,
}

/// The entry of a settings file that announces an MCP server.
pub open spec fn mcp_entry(preset: McpPreset) -> Seq<char> {
    match preset {
        McpPreset::Sentry =>
            "[[mcp.servers]]\nname = \"sentry\"\ntype = \"http\"\nurl = \"https://mcp.sentry.dev/mcp\"\n\n"@,
        McpPreset::Linear =>
            "[[mcp.servers]]\nname = \"linear\"\ntype = \"http\"\nurl = \"https://mcp.linear.app/mcp\"\n\n"@,
    }
}

/// The entries for the first `upto` servers.
pub open spec fn mcp_entries(servers: Seq<McpPreset>, upto: int) -> Seq<char>
    decreases upto,
{
    if upto <= 0 {
        Seq::empty()
    } else {
        mcp_entries(servers, upto - 1) + mcp_entry(servers[upto - 1])
    }
}

/// The entries for the first `upto` repositories: a table per repository
/// with nothing to copy and nothing to link.
pub open spec fn repo_tables(repos: Seq<String>, upto: int) -> Seq<char>
    decreases upto,
{
    if upto <= 0 {
        Seq::empty()
    } else {
        repo_tables(repos, upto - 1) + ("[repos."@ + repos[upto - 1]@
            + "]\ncopy = []\nsymlink = []\n\n"@)
    }
}

/// A first settings file: the base branch, a place for scripts, the
/// chosen MCP servers and a table for each repository.
pub open spec fn starter_text(base_branch: Seq<char>, servers: Seq<McpPreset>, repos: Seq<String>) -> Seq<
    char,
> {
    ("[session]\nbase_branch = \""@ + base_branch + "\"\nshared_context = []\n\n"@)
        + "[scripts]\n# setup = \"./scripts/setup.sh\"\n# teardown = \"./scripts/teardown.sh\"\n\n"@
        + mcp_entries(servers, servers.len() as int) + repo_tables(repos, repos.len() as int)
}

/// Writes a first settings file for the repositories found.
pub fn starter_config(base_branch: &str, servers: &Vec<McpPreset>, repos: &Vec<String>) -> (text:
    String)
    ensures
        text@ == starter_text(base_branch@, servers@, repos@),
{
    let mut head: Vec<char> = Vec::new();
    push_str(&mut head, "[session]\nbase_branch = \"");
    push_str(&mut head, base_branch);
    push_str(&mut head, "\"\nshared_context = []\n\n");
    let mut announced: Vec<char> = Vec::new();
    let mut i: usize = 0;
    while i < servers.len()
        invariant
            i <= servers.len(),
            announced@ == mcp_entries(servers@, i as int),
        decreases servers.len() - i,
    {
        match servers[i] {
            McpPreset::Sentry => {
                push_str(
                    &mut announced,
                    "[[mcp.servers]]\nname = \"sentry\"\ntype = \"http\"\nurl = \"https://mcp.sentry.dev/mcp\"\n\n",
                );
            },
            McpPreset::Linear => {
                push_str(
                    &mut announced,
                    "[[mcp.servers]]\nname = \"linear\"\ntype = \"http\"\nurl = \"https://mcp.linear.app/mcp\"\n\n",
                );
            },
        }
        i = i + 1;
    }
    let mut tables: Vec<char> = Vec::new();
    let mut j: usize = 0;
    while j < repos.len()
        invariant
            j <= repos.len(),
            tables@ == repo_tables(repos@, j as int),
        decreases repos.len() - j,
    {
        let mut table: Vec<char> = Vec::new();
        push_str(&mut table, "[repos.");
        push_str(&mut table, repos[j].as_str());
        push_str(&mut table, "]\ncopy = []\nsymlink = []\n\n");
        push_all(&mut tables, &table);
        j = j + 1;
    }
    let mut out: Vec<char> = Vec::new();
    push_all(&mut out, &head);
    push_str(
        &mut out,
        "[scripts]\n# setup = \"./scripts/setup.sh\"\n# teardown = \"./scripts/teardown.sh\"\n\n",
    );
    push_all(&mut out, &announced);
    push_all(&mut out, &tables);
    string_of(&out)
}

} // verus!
