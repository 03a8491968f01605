//! Synchronisation of the calendar directory with a git remote: the
//! provider's settings and what a status report means.

use crate::text::{chars_of, contains, has_infix, push_all, string_views};
use vstd::prelude::*;
use vstd::string::StringExecFns;

verus! {

/// How the local calendar stands against the remote.
#[derive(Debug, PartialEq, Eq, Clone)]
pub enum SyncStatus {
    UpToDate,
    Ahead,
    Behind,
    Conflicts,
    Error(String),
}

/// How the local calendar stands against the remote, with the error's text
/// as a character sequence.
#[verifier::ext_equal]
pub enum StatusView {
    UpToDate,
    Ahead,
    Behind,
    Conflicts,
    Error(Seq<char>),
}

impl View for SyncStatus {
    type V = StatusView;

    open spec fn view(&self) -> StatusView {
        match self {
            SyncStatus::UpToDate => StatusView::UpToDate,
            SyncStatus::Ahead => StatusView::Ahead,
            SyncStatus::Behind => StatusView::Behind,
            SyncStatus::Conflicts => StatusView::Conflicts,
            SyncStatus::Error(text) => StatusView::Error(text@),
        }
    }
}

/// A git remote and the branch that is synchronised with it.
#[derive(Debug, PartialEq, Eq, Clone)]
pub struct GitSyncProvider {
    pub remote_url: String,
    pub branch: String,
}

/// A provider's settings as character sequences.
#[verifier::ext_equal]
pub struct ProviderView {
    pub remote_url: Seq<char>,
    pub branch: Seq<char>,
}

impl View for GitSyncProvider {
    type V = ProviderView;

    open spec fn view(&self) -> ProviderView {
        ProviderView { remote_url: self.remote_url@, branch: self.branch@ }
    }
}

impl GitSyncProvider {
    /// A provider for `remote_url`, on the branch `main`.
    pub fn new(remote_url: String) -> (provider: Self)
        ensures
            provider.remote_url == remote_url,
            provider.branch@ == "main"@,
    {
        Self { remote_url, branch: String::from_str("main") }
    }
}

/// What a status report of git means. A report that speaks of both `ahead`
/// and `behind` means conflicts; one that speaks of either means that; one
/// that names the remote branch means that all is up to date; and any other
/// means that the branch has no remote.
pub open spec fn status_of_report(report: Seq<char>, branch: Seq<char>) -> StatusView {
    if has_infix(report, "ahead"@) && has_infix(report, "behind"@) {
        StatusView::Conflicts
    } else if has_infix(report, "ahead"@) {
        StatusView::Ahead
    } else if has_infix(report, "behind"@) {
        StatusView::Behind
    } else if has_infix(report, "origin/"@ + branch) {
        StatusView::UpToDate
    } else {
        StatusView::Error("No remote branch found"@)
    }
}

/// The status that the attempt to ask git for it leads to: an error where
/// the directory is no repository or the command failed, and otherwise what
/// the report means.
pub open spec fn status_found(
    is_repository: bool,
    succeeded: bool,
    report: Seq<char>,
    branch: Seq<char>,
) -> StatusView {
    if !is_repository {
        StatusView::Error("Not a git repository"@)
    } else if !succeeded {
        StatusView::Error("Failed to get git status"@)
    } else {
        status_of_report(report, branch)
    }
}

/// A command of git that synchronisation runs.
#[derive(Clone, Copy, PartialEq, Eq, Debug, Structural)]
pub enum GitCommand {
    Init,
    RemoteGetUrl,
    RemoteAdd,
    Fetch,
    Pull,
    Add,
    DiffCached,
    Commit,
    Push,
    Status,
}

/// Something that synchronisation does with a series of commands.
#[derive(Clone, Copy, PartialEq, Eq, Debug, Structural)]
pub enum Operation {
    Init,
    Pull,
    Push,
}

/// How an operation goes on after a command.
#[derive(PartialEq, Eq, Debug)]
pub enum Progress {
    /// Run this command next.
    Run(GitCommand),
    /// The operation is done.
    Done,
    /// The operation has failed, with this message.
    Failed(String),
}

/// How an operation goes on, with the message as characters.
#[verifier::ext_equal]
pub enum ProgressView {
    Run(GitCommand),
    Done,
    Failed(Seq<char>),
}

impl View for Progress {
    type V = ProgressView;

    open spec fn view(&self) -> ProgressView {
        match self {
            Progress::Run(command) => ProgressView::Run(*command),
            Progress::Done => ProgressView::Done,
            Progress::Failed(message) => ProgressView::Failed(message@),
        }
    }
}

/// The command that an operation begins with. Initialising begins with
/// making a repository, unless the directory is one already.
pub open spec fn first_step(operation: Operation, is_repository: bool) -> GitCommand {
    match operation {
        Operation::Init => if is_repository {
            GitCommand::RemoteGetUrl
        } else {
            GitCommand::Init
        },
        Operation::Pull => GitCommand::Pull,
        Operation::Push => GitCommand::Add,
    }
}

/// How an operation goes on after `command` ended, successfully or not, with
/// `errors` as what it wrote to its error stream.
///
/// Initialising makes the repository, adds the remote unless one is set,
/// and fetches. Pulling is one command. Pushing stages everything, stops
/// where nothing is staged, commits, and pushes; a commit that fails because
/// there is nothing to commit does not stop it.
pub open spec fn step_after_command(
    command: GitCommand,
    succeeded: bool,
    errors: Seq<char>,
) -> ProgressView {
    match command {
        GitCommand::Init => if succeeded {
            ProgressView::Run(GitCommand::RemoteGetUrl)
        } else {
            ProgressView::Failed("Git init failed"@)
        },
        GitCommand::RemoteGetUrl => if succeeded {
            ProgressView::Run(GitCommand::Fetch)
        } else {
            ProgressView::Run(GitCommand::RemoteAdd)
        },
        GitCommand::RemoteAdd => if succeeded {
            ProgressView::Run(GitCommand::Fetch)
        } else {
            ProgressView::Failed("Git remote add failed"@)
        },
        GitCommand::Fetch => if succeeded {
            ProgressView::Done
        } else {
            ProgressView::Failed("Git fetch failed: "@ + errors)
        },
        GitCommand::Pull => if succeeded {
            ProgressView::Done
        } else if has_infix(errors, "conflict"@) {
            ProgressView::Failed("Merge conflicts detected. Please resolve manually."@)
        } else {
            ProgressView::Failed("Git pull failed: "@ + errors)
        },
        GitCommand::Add => if succeeded {
            ProgressView::Run(GitCommand::DiffCached)
        } else {
            ProgressView::Failed("Git add failed"@)
        },
        GitCommand::DiffCached => if succeeded {
            ProgressView::Done
        } else {
            ProgressView::Run(GitCommand::Commit)
        },
        GitCommand::Commit => if succeeded || has_infix(errors, "nothing to commit"@) {
            ProgressView::Run(GitCommand::Push)
        } else {
            ProgressView::Failed("Git commit failed: "@ + errors)
        },
        GitCommand::Push => if succeeded {
            ProgressView::Done
        } else {
            ProgressView::Failed("Git push failed: "@ + errors)
        },
        GitCommand::Status => ProgressView::Done,
    }
}

/// The arguments that git is called with for a command.
pub open spec fn arguments_of(command: GitCommand, provider: ProviderView) -> Seq<Seq<char>> {
    match command {
        GitCommand::Init => seq!["init"@],
        GitCommand::RemoteGetUrl => seq!["remote"@, "get-url"@, "origin"@],
        GitCommand::RemoteAdd => seq!["remote"@, "add"@, "origin"@, provider.remote_url],
        GitCommand::Fetch => seq!["fetch"@, "origin"@],
        GitCommand::Pull => seq!["pull"@, "--rebase"@, "origin"@, provider.branch],
        GitCommand::Add => seq!["add"@, "."@],
        GitCommand::DiffCached => seq!["diff"@, "--cached"@, "--quiet"@],
        GitCommand::Commit => seq!["commit"@, "-m"@, "Sync events"@],
        GitCommand::Push => seq!["push"@, "origin"@, provider.branch],
        GitCommand::Status => seq!["status"@, "-sb"@],
    }
}

/// The text of the configuration file that names `url` as the remote.
pub open spec fn config_text(url: Seq<char>) -> Seq<char> {
    "\n[sync]\nremote = \""@ + url + "\"\n"@
}

/// The text that toml finds in a configuration text under a key of a table,
/// if it finds one.
pub uninterp spec fn text_in_config(content: Seq<char>, table: Seq<char>, key: Seq<char>) -> Option<
    Seq<char>,
>;

/// Calls toml's `from_str` for a `toml::Value` and looks up the string under
/// `table`, `key` with `Value::get` and `Value::as_str`. The contract claims
/// only that the outcome depends on the three texts alone.
#[verifier::external_body]
fn read_config_text(content: &str, table: &str, key: &str) -> (found: Option<String>)
    ensures
        match found {
            Some(text) => text_in_config(content@, table@, key@) == Some(text@),
            None => text_in_config(content@, table@, key@) is None,
        },
{
    let config: toml::Value = toml::from_str(content).ok()?;
    config.get(table)?.get(key)?.as_str().map(|text| text.to_string())
}

/// The remote that a configuration text names: the text under the key
/// `remote` of the table `sync`.
pub open spec fn remote_in_config(content: Seq<char>) -> Option<Seq<char>> {
    text_in_config(content, "sync"@, "remote"@)
}

/// Whether one text stands somewhere in another.
fn holds(text: &Vec<char>, word: &str) -> (found: bool)
    ensures
        found == has_infix(text@, word@),
{
    contains(text, &chars_of(word))
}

impl GitSyncProvider {
    /// What a status report of git means for this provider's branch.
    pub fn classify_status(&self, report: &str) -> (status: SyncStatus)
        ensures
            status@ == status_of_report(report@, self.branch@),
    {
        let text = chars_of(report);
        let ahead = holds(&text, "ahead");
        let behind = holds(&text, "behind");
        if ahead && behind {
            SyncStatus::Conflicts
        } else if ahead {
            SyncStatus::Ahead
        } else if behind {
            SyncStatus::Behind
        } else {
            let mut remote_branch = chars_of("origin/");
            push_all(&mut remote_branch, &chars_of(self.branch.as_str()));
            if contains(&text, &remote_branch) {
                SyncStatus::UpToDate
            } else {
                SyncStatus::Error(String::from_str("No remote branch found"))
            }
        }
    }

    /// The status that the attempt to ask git for it leads to.
    pub fn status_from(&self, is_repository: bool, succeeded: bool, report: &str) -> (status:
        SyncStatus)
        ensures
            status@ == status_found(is_repository, succeeded, report@, self.branch@),
    {
        if !is_repository {
            SyncStatus::Error(String::from_str("Not a git repository"))
        } else if !succeeded {
            SyncStatus::Error(String::from_str("Failed to get git status"))
        } else {
            self.classify_status(report)
        }
    }

    /// The arguments that git is called with for a command.
    pub fn arguments(&self, command: GitCommand) -> (arguments: Vec<String>)
        ensures
            string_views(arguments@) == arguments_of(command, self@),
    {
        let mut arguments: Vec<String> = Vec::new();
        match command {
            GitCommand::Init => {
                arguments.push(String::from_str("init"));
            },
            GitCommand::RemoteGetUrl => {
                arguments.push(String::from_str("remote"));
                arguments.push(String::from_str("get-url"));
                arguments.push(String::from_str("origin"));
            },
            GitCommand::RemoteAdd => {
                arguments.push(String::from_str("remote"));
                arguments.push(String::from_str("add"));
                arguments.push(String::from_str("origin"));
                arguments.push(self.remote_url.clone());
            },
            GitCommand::Fetch => {
                arguments.push(String::from_str("fetch"));
                arguments.push(String::from_str("origin"));
            },
            GitCommand::Pull => {
                arguments.push(String::from_str("pull"));
                arguments.push(String::from_str("--rebase"));
                arguments.push(String::from_str("origin"));
                arguments.push(self.branch.clone());
            },
            GitCommand::Add => {
                arguments.push(String::from_str("add"));
                arguments.push(String::from_str("."));
            },
            GitCommand::DiffCached => {
                arguments.push(String::from_str("diff"));
                arguments.push(String::from_str("--cached"));
                arguments.push(String::from_str("--quiet"));
            },
            GitCommand::Commit => {
                arguments.push(String::from_str("commit"));
                arguments.push(String::from_str("-m"));
                arguments.push(String::from_str("Sync events"));
            },
            GitCommand::Push => {
                arguments.push(String::from_str("push"));
                arguments.push(String::from_str("origin"));
                arguments.push(self.branch.clone());
            },
            GitCommand::Status => {
                arguments.push(String::from_str("status"));
                arguments.push(String::from_str("-sb"));
            },
        }
        assert(string_views(arguments@) =~= arguments_of(command, self@));
        arguments
    }
}

/// The command that an operation begins with.
pub fn first_command(operation: Operation, is_repository: bool) -> (command: GitCommand)
    ensures
        command == first_step(operation, is_repository),
{
    match operation {
        Operation::Init => if is_repository {
            GitCommand::RemoteGetUrl
        } else {
            GitCommand::Init
        },
        Operation::Pull => GitCommand::Pull,
        Operation::Push => GitCommand::Add,
    }
}

/// A failure whose message is `start` followed by `errors`.
fn failed_with(start: &str, errors: &str) -> (progress: Progress)
    ensures
        progress@ == ProgressView::Failed(start@ + errors@),
{
    Progress::Failed(String::from_str(start).concat(errors))
}

/// A failure with the message `message`.
fn failed(message: &str) -> (progress: Progress)
    ensures
        progress@ == ProgressView::Failed(message@),
{
    Progress::Failed(String::from_str(message))
}

/// How an operation goes on after `command` ended, successfully or not, with
/// `errors` as what it wrote to its error stream.
pub fn next_step(command: GitCommand, succeeded: bool, errors: &str) -> (progress: Progress)
    ensures
        progress@ == step_after_command(command, succeeded, errors@),
{
    match command {
        GitCommand::Init => if succeeded {
            Progress::Run(GitCommand::RemoteGetUrl)
        } else {
            failed("Git init failed")
        },
        GitCommand::RemoteGetUrl => if succeeded {
            Progress::Run(GitCommand::Fetch)
        } else {
            Progress::Run(GitCommand::RemoteAdd)
        },
        GitCommand::RemoteAdd => if succeeded {
            Progress::Run(GitCommand::Fetch)
        } else {
            failed("Git remote add failed")
        },
        GitCommand::Fetch => if succeeded {
            Progress::Done
        } else {
            failed_with("Git fetch failed: ", errors)
        },
        GitCommand::Pull => if succeeded {
            Progress::Done
        } else if holds(&chars_of(errors), "conflict") {
            failed("Merge conflicts detected. Please resolve manually.")
        } else {
            failed_with("Git pull failed: ", errors)
        },
        GitCommand::Add => if succeeded {
            Progress::Run(GitCommand::DiffCached)
        } else {
            failed("Git add failed")
        },
        GitCommand::DiffCached => if succeeded {
            Progress::Done
        } else {
            Progress::Run(GitCommand::Commit)
        },
        GitCommand::Commit => if succeeded || holds(&chars_of(errors), "nothing to commit") {
            Progress::Run(GitCommand::Push)
        } else {
            failed_with("Git commit failed: ", errors)
        },
        GitCommand::Push => if succeeded {
            Progress::Done
        } else {
            failed_with("Git push failed: ", errors)
        },
        GitCommand::Status => Progress::Done,
    }
}

/// The text of the configuration file that names `url` as the remote.
pub fn render_config(url: &str) -> (content: String)
    ensures
        content@ == config_text(url@),
{
    String::from_str("\n[sync]\nremote = \"").concat(url).concat("\"\n")
}

/// The remote that a configuration names, given the text of the
/// configuration file if there is one.
pub fn load_remote_url(content: Option<&str>) -> (remote: Option<String>)
    ensures
        match (content, remote) {
            (Some(text), Some(url)) => remote_in_config(text@) == Some(url@),
            (Some(text), None) => remote_in_config(text@) is None,
            (None, found) => found is None,
        },
{
    match content {
        Some(text) => read_config_text(text, "sync", "remote"),
        None => None,
    }
}

} // verus!
