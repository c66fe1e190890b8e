use crate::ticket::Ticket;
use vstd::prelude::*;

verus! {

#[verifier::external_type_specification]
#[verifier::external_body]
pub struct ExIoError(std::io::Error);

#[verifier::external_type_specification]
#[verifier::external_body]
pub struct ExGitError(git2::Error);

/// Why a path could not be read as a ticket's path.
#[derive(Debug, Clone, Copy, PartialEq, Eq, Structural)]
pub enum PathProblem {
    /// The path does not lie under the working directory.
    NotUnderWorkdir,
    /// The path does not lie under the tickets directory.
    NotUnderTicketsDir,
    /// The file stem has no `.` between a name and a type.
    MissingType,
    /// The path ends in `.` or `..`, which name no file.
    NoFileName,
}

impl PathProblem {
    /// A sentence that describes the problem.
    pub fn message(&self) -> (r: &'static str)
        ensures
            *self == PathProblem::MissingType ==> r@
                == "Ticket filename doesn't appear to have a type"@,
            *self == PathProblem::NotUnderWorkdir ==> r@
                == "Couldn't strip the workdir prefix from the path."@,
            *self == PathProblem::NoFileName ==> r@ == "Ticket path doesn't name a file."@,
            *self == PathProblem::NotUnderTicketsDir ==> r@
                == "Couldn't strip the tickets dir prefix from the path."@,
    {
        match self {
            PathProblem::NotUnderWorkdir => "Couldn't strip the workdir prefix from the path.",
            PathProblem::NotUnderTicketsDir => "Couldn't strip the tickets dir prefix from the path.",
            PathProblem::MissingType => "Ticket filename doesn't appear to have a type",
            PathProblem::NoFileName => "Ticket path doesn't name a file.",
        }
    }
}

#[derive(Debug)]
pub enum CliError {
    TicketExists(Vec<Ticket>),
    NoCommandDefined,
    CantOpenWorkDir,
    Io(std::io::Error),
    Git(git2::Error),
    CmdError(String),
    PathError(PathProblem),
    CantFindTicket,
    MoreThanOneTicket(Vec<Ticket>),
}

impl From<std::io::Error> for CliError {
    fn from(err: std::io::Error) -> (r: CliError)
        ensures
            r == CliError::Io(err),
    {
        CliError::Io(err)
    }
}

impl vstd::std_specs::convert::FromSpecImpl<std::io::Error> for CliError {
    open spec fn obeys_from_spec() -> bool {
        true
    }

    open spec fn from_spec(err: std::io::Error) -> CliError {
        CliError::Io(err)
    }
}

impl From<git2::Error> for CliError {
    fn from(err: git2::Error) -> (r: CliError)
        ensures
            r == CliError::Git(err),
    {
        CliError::Git(err)
    }
}

impl vstd::std_specs::convert::FromSpecImpl<git2::Error> for CliError {
    open spec fn obeys_from_spec() -> bool {
        true
    }

    open spec fn from_spec(err: git2::Error) -> CliError {
        CliError::Git(err)
    }
}

} // verus!
