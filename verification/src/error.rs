//! The error taxonomy of the service: one variant per failure class, each with
//! a stable numeric code and an HTTP status chosen per class.

use vstd::prelude::*;
use vstd::string::*;

verus! {

/// Every failure the service reports. Startup-time classes (environment,
/// database, server bind) carry small codes; per-request classes carry codes
/// in a reserved high range, echoed in JSON error bodies.
#[derive(Debug)]
pub enum Error {
    EnvVarMissing(String),
    DbConnectError,
    DbQueryError,
    DbMigrationError,
    ServerStartError,
    NotImplemented,
    Unauthorized,
    EnvyError,
    InternalError,
    InTeam,
    NoSuchTeam(String),
    TeamNameTaken(String),
    TeamAccessDenied(String),
    NotInTeam,
}

impl Error {
    /// The stable numeric code of this error class.
    pub open spec fn spec_number(&self) -> u8 {
        match self {
            Error::EnvVarMissing(_) | Error::EnvyError => 1,
            Error::ServerStartError => 2,
            Error::DbConnectError => 3,
            Error::DbQueryError | Error::DbMigrationError => 4,
            Error::NotInTeam => 238,
            Error::TeamAccessDenied(_) => 239,
            Error::TeamNameTaken(_) => 240,
            Error::InTeam => 241,
            Error::NoSuchTeam(_) => 242,
            Error::Unauthorized => 243,
            Error::NotImplemented => 254,
            Error::InternalError => 255,
        }
    }

    /// The HTTP status for this error class: membership misuse is a client
    /// error, failed authentication is unauthorized, denied team access is
    /// forbidden, and everything else is an internal server error.
    pub open spec fn spec_status(&self) -> u16 {
        match self {
            Error::InTeam | Error::NoSuchTeam(_) | Error::NotInTeam => 400,
            Error::Unauthorized => 401,
            Error::TeamAccessDenied(_) => 403,
            Error::NotImplemented => 501,
            _ => 500,
        }
    }

    pub fn as_number(&self) -> (n: u8)
        ensures
            n == self.spec_number(),
    {
        match self {
            Error::EnvVarMissing(_) | Error::EnvyError => 1,
            Error::ServerStartError => 2,
            Error::DbConnectError => 3,
            Error::DbQueryError | Error::DbMigrationError => 4,
            Error::NotInTeam => 238,
            Error::TeamAccessDenied(_) => 239,
            Error::TeamNameTaken(_) => 240,
            Error::InTeam => 241,
            Error::NoSuchTeam(_) => 242,
            Error::Unauthorized => 243,
            Error::NotImplemented => 254,
            Error::InternalError => 255,
        }
    }

    /// The human-readable message echoed beside the numeric code.
    pub open spec fn spec_message(&self) -> Seq<char> {
        match self {
            Error::EnvVarMissing(v) => "Missing environment variable: "@ + v@,
            Error::DbConnectError => "Couldn't connect to Database"@,
            Error::DbQueryError => "Couldn't execute query"@,
            Error::DbMigrationError => "Error running migrations"@,
            Error::ServerStartError => "Could not start server"@,
            Error::NotImplemented => "Not implemented"@,
            Error::Unauthorized => "Unauthorized"@,
            Error::EnvyError => "Missing environment variable"@,
            Error::InternalError => "There was an internal server error, please try again later"@,
            Error::InTeam => "You cannot join/found a team because you are currently in one. Please leave the current team before retrying"@,
            Error::NoSuchTeam(t) => "No team with the code "@ + t@ + " exists"@,
            Error::TeamNameTaken(t) => "Sorry, the team name "@ + t@
                + " was taken, choose another one"@,
            Error::TeamAccessDenied(t) => "You do not have permission to access the team "@ + t@,
            Error::NotInTeam => "You have to be in a team before you can leave it"@,
        }
    }

    pub fn message(&self) -> (m: String)
        ensures
            m@ == self.spec_message(),
    {
        match self {
            Error::EnvVarMissing(v) => {
                let mut s = String::from_str("Missing environment variable: ");
                s.append(v.as_str());
                s
            },
            Error::DbConnectError => String::from_str("Couldn't connect to Database"),
            Error::DbQueryError => String::from_str("Couldn't execute query"),
            Error::DbMigrationError => String::from_str("Error running migrations"),
            Error::ServerStartError => String::from_str("Could not start server"),
            Error::NotImplemented => String::from_str("Not implemented"),
            Error::Unauthorized => String::from_str("Unauthorized"),
            Error::EnvyError => String::from_str("Missing environment variable"),
            Error::InternalError => String::from_str(
                "There was an internal server error, please try again later",
            ),
            Error::InTeam => String::from_str(
                "You cannot join/found a team because you are currently in one. Please leave the current team before retrying",
            ),
            Error::NoSuchTeam(t) => {
                let mut s = String::from_str("No team with the code ");
                s.append(t.as_str());
                s.append(" exists");
                proof {
                    assert(s@ =~= self.spec_message());
                }
                s
            },
            Error::TeamNameTaken(t) => {
                let mut s = String::from_str("Sorry, the team name ");
                s.append(t.as_str());
                s.append(" was taken, choose another one");
                proof {
                    assert(s@ =~= self.spec_message());
                }
                s
            },
            Error::TeamAccessDenied(t) => {
                let mut s = String::from_str("You do not have permission to access the team ");
                s.append(t.as_str());
                s
            },
            Error::NotInTeam => String::from_str("You have to be in a team before you can leave it"),
        }
    }

    pub fn status_code(&self) -> (c: u16)
        ensures
            c == self.spec_status(),
    {
        match self {
            Error::InTeam | Error::NoSuchTeam(_) | Error::NotInTeam => 400,
            Error::Unauthorized => 401,
            Error::TeamAccessDenied(_) => 403,
            Error::NotImplemented => 501,
            _ => 500,
        }
    }
}

} // verus!
