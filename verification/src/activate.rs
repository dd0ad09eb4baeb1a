//! Choosing the account that the client logs in to.

use crate::account::has_user;
use crate::account::listed;
use crate::account::load_account_list;
use crate::account::switched_to;
use crate::files::AccountFile;
use crate::request::AccountError;
use crate::request::Progress;
use crate::request::Reply;
use crate::request::Request;
use vstd::prelude::*;

verus! {

/// How far the choice of an account has come.
#[derive(Debug, PartialEq, Eq)]
pub enum SetActiveAccount {
    ReadingAccounts { user_id: String, active: bool },
    EncodingAccounts,
    WritingAccounts,
}

/// The choice of an account, under way.
pub type Activating<E> = Progress<SetActiveAccount, Request, Result<(), AccountError<E>>>;

/// Begins to make the account of `user_id` the active one, or to make it inactive. Either way
/// every other account becomes inactive.
pub fn set_active_account<E>(user_id: String, active: bool) -> (out: Activating<E>)
    ensures
        out == begun_activation::<E>(user_id, active),
{
    Progress::Ask {
        state: SetActiveAccount::ReadingAccounts { user_id, active },
        request: Request::ReadAccounts,
    }
}

/// The choice of an account, at its begin.
pub open spec fn begun_activation<E>(user_id: String, active: bool) -> Activating<E> {
    Progress::Ask {
        state: SetActiveAccount::ReadingAccounts { user_id, active },
        request: Request::ReadAccounts,
    }
}

/// Whether `out` is how the choice of an account goes on from `state` with `reply`.
pub open spec fn activate_step<E>(
    state: SetActiveAccount,
    reply: Reply<E>,
    out: Activating<E>,
) -> bool {
    let failed = Activating::<E>::Finished(Err(reply.failure()));
    match state {
        SetActiveAccount::ReadingAccounts { user_id, active } => match reply {
            Reply::Accounts(found) => if has_user(listed(found), user_id@) {
                &&& out matches Progress::Ask {
                    state: SetActiveAccount::EncodingAccounts,
                    request: Request::EncodeAccounts(list),
                }
                &&& list@ == switched_to(listed(found), user_id@, active)
            } else {
                out == Activating::<E>::Finished(Err(AccountError::UserNotFound(user_id)))
            },
            _ => out == failed,
        },
        SetActiveAccount::EncodingAccounts => match reply {
            Reply::Bytes(users) => out == Activating::<E>::Ask {
                state: SetActiveAccount::WritingAccounts,
                request: Request::WriteFile(AccountFile::Users, users),
            },
            _ => out == failed,
        },
        SetActiveAccount::WritingAccounts => match reply {
            Reply::Done => out == Activating::<E>::Finished(Ok(())),
            _ => out == failed,
        },
    }
}

impl SetActiveAccount {
    /// Goes on with the answer to the last request.
    pub fn resume<E>(self, reply: Reply<E>) -> (out: Activating<E>)
        ensures
            activate_step(self, reply, out),
    {
        match self {
            SetActiveAccount::ReadingAccounts { user_id, active } => match reply {
                Reply::Accounts(found) => {
                    let mut list = load_account_list(found);
                    match list.position_of(user_id.as_str()) {
                        Some(at) => {
                            assert(list@[at as int].user_id@ == user_id@);
                            list.switch_to(user_id.as_str(), active);
                            Progress::Ask {
                                state: SetActiveAccount::EncodingAccounts,
                                request: Request::EncodeAccounts(list),
                            }
                        },
                        None => Progress::Finished(Err(AccountError::UserNotFound(user_id))),
                    }
                },
                reply => Progress::Finished(Err(reply.into_failure())),
            },
            SetActiveAccount::EncodingAccounts => match reply {
                Reply::Bytes(users) => Progress::Ask {
                    state: SetActiveAccount::WritingAccounts,
                    request: Request::WriteFile(AccountFile::Users, users),
                },
                reply => Progress::Finished(Err(reply.into_failure())),
            },
            SetActiveAccount::WritingAccounts => match reply {
                Reply::Done => Progress::Finished(Ok(())),
                reply => Progress::Finished(Err(reply.into_failure())),
            },
        }
    }
}

} // verus!
