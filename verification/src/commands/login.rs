//! The login command: storing the credentials of an account.

use vstd::prelude::*;
use crate::cli::LoginArgs;
use super::accounts::AccountsTask;

verus! {

/// Logging in stores the given account, as adding it does.
pub fn run(args: LoginArgs) -> (t: AccountsTask)
    ensures
        t == AccountsTask::Add(args),
{
    AccountsTask::Add(args)
}

} // verus!
