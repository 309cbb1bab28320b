//! The login command an operator issues against the credential service:
//! credentials may be given up front or asked for interactively. Which of
//! the two each credential comes from is the one decision made here; the
//! asking itself, and the call to the credential service, are I/O around
//! the library.

use vstd::prelude::*;

verus! {

/// An operator's login request: each credential optional, to be asked for
/// at run time when absent.
#[derive(Clone, Debug, PartialEq, Eq)]
pub struct LoginCommand {
    /// Email used to log in; if not defined it will be asked at runtime.
    pub email: Option<String>,
    /// Password used to log in; if not defined it will be asked at runtime.
    pub password: Option<String>,
}

impl LoginCommand {
    /// Settles the credentials: a value given up front wins, the prompted
    /// value stands in only where none was given.
    pub fn resolve_credentials(self, prompted_email: String, prompted_password: String) -> (r: (
        String,
        String,
    ))
        ensures
            r.0@ == (match self.email {
                Some(e) => e@,
                None => prompted_email@,
            }),
            r.1@ == (match self.password {
                Some(p) => p@,
                None => prompted_password@,
            }),
    {
        let email = match self.email {
            Some(e) => e,
            None => prompted_email,
        };
        let password = match self.password {
            Some(p) => p,
            None => prompted_password,
        };
        (email, password)
    }
}

} // verus!
