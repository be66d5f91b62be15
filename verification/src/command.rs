//! The command line: which of the two commands the arguments ask for, and
//! the parameters that a triggered build is given.

use vstd::prelude::*;

verus! {

/// What the arguments ask for.
#[derive(Clone, Debug, PartialEq, Eq)]
pub enum Command {
    /// No command was named: show how the program is called.
    Usage,
    /// `login` with other than three values: show how `login` is called.
    LoginUsage,
    /// Store the three credentials.
    Login { endpoint: String, username: String, token: String },
    /// `build` with other than three values: show how `build` is called.
    BuildUsage,
    /// Trigger and follow a build of `job`.
    Build { job: String, branch: String, env: String },
    /// A command that the program does not know.
    Unknown { name: String },
}

/// Mathematical content of a [`Command`].
pub enum CommandView {
    Usage,
    LoginUsage,
    Login { endpoint: Seq<char>, username: Seq<char>, token: Seq<char> },
    BuildUsage,
    Build { job: Seq<char>, branch: Seq<char>, env: Seq<char> },
    Unknown { name: Seq<char> },
}

impl View for Command {
    type V = CommandView;

    open spec fn view(&self) -> CommandView {
        match *self {
            Command::Usage => CommandView::Usage,
            Command::LoginUsage => CommandView::LoginUsage,
            Command::Login { endpoint, username, token } => CommandView::Login {
                endpoint: endpoint@,
                username: username@,
                token: token@,
            },
            Command::BuildUsage => CommandView::BuildUsage,
            Command::Build { job, branch, env } => CommandView::Build {
                job: job@,
                branch: branch@,
                env: env@,
            },
            Command::Unknown { name } => CommandView::Unknown { name: name@ },
        }
    }
}

/// The command that the arguments `args` ask for; `args[0]` is the
/// program's own name. A command takes exactly three values.
pub open spec fn command_of(args: Seq<String>) -> CommandView {
    if args.len() < 2 {
        CommandView::Usage
    } else if args[1]@ == "login"@ {
        if args.len() == 5 {
            CommandView::Login { endpoint: args[2]@, username: args[3]@, token: args[4]@ }
        } else {
            CommandView::LoginUsage
        }
    } else if args[1]@ == "build"@ {
        if args.len() == 5 {
            CommandView::Build { job: args[2]@, branch: args[3]@, env: args[4]@ }
        } else {
            CommandView::BuildUsage
        }
    } else {
        CommandView::Unknown { name: args[1]@ }
    }
}

/// Reads the command line.
pub fn parse_command(args: &Vec<String>) -> (r: Command)
    ensures
        r@ == command_of(args@),
{
    if args.len() < 2 {
        return Command::Usage;
    }
    let login = "login".to_owned();
    let build = "build".to_owned();
    if args[1] == login {
        if args.len() == 5 {
            Command::Login {
                endpoint: args[2].clone(),
                username: args[3].clone(),
                token: args[4].clone(),
            }
        } else {
            Command::LoginUsage
        }
    } else if args[1] == build {
        if args.len() == 5 {
            Command::Build { job: args[2].clone(), branch: args[3].clone(), env: args[4].clone() }
        } else {
            Command::BuildUsage
        }
    } else {
        Command::Unknown { name: args[1].clone() }
    }
}

/// Name of the build parameter that carries the branch.
pub open spec fn branch_parameter() -> Seq<char> {
    "hydee_git_branch"@
}

/// Name of the build parameter that carries the target environment.
pub open spec fn env_parameter() -> Seq<char> {
    "env"@
}

/// The parameters of a triggered build: the branch, then the target
/// environment.
pub fn trigger_parameters(branch: &str, env: &str) -> (r: Vec<(String, String)>)
    ensures
        r@.len() == 2,
        r@[0].0@ == branch_parameter() && r@[0].1@ == branch@,
        r@[1].0@ == env_parameter() && r@[1].1@ == env@,
{
    let mut r: Vec<(String, String)> = Vec::new();
    r.push(("hydee_git_branch".to_owned(), branch.to_owned()));
    r.push(("env".to_owned(), env.to_owned()));
    r
}

} // verus!
