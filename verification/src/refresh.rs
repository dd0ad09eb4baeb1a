//! Keeping a session alive: renewing its access token, or giving the session up.

use crate::remove::begun_removal;
use crate::remove::remove_account_config;
use crate::remove::remove_step;
use crate::remove::RemoveAccountConfig;
use crate::remove::Removing;
use crate::request::AccountError;
use crate::request::Progress;
use crate::request::Reply;
use crate::request::Request;
use crate::session::SessionTokens;
use crate::update::begun_update;
use crate::update::update_account_config;
use crate::update::update_step;
use crate::update::TokenUpdate;
use crate::update::UpdateAccountConfig;
use crate::update::Updating;
use vstd::prelude::*;

verus! {

/// What a session goes through.
#[derive(Debug, PartialEq, Eq)]
pub enum SessionChange {
    /// The homeserver no longer takes the access token. After a soft logout the session lives on
    /// with a new one.
    UnknownToken { soft_logout: bool },
    TokensRefreshed,
}

/// Why an access token was not renewed.
#[derive(Debug)]
pub enum RefreshFailure<E> {
    /// There is no refresh token to renew it with.
    RefreshTokenRequired,
    /// The homeserver turned it down; `unknown_token` says that it did not know the refresh token
    /// either.
    MatrixAuth { unknown_token: bool, error: E },
    /// It failed otherwise.
    Other(E),
}

/// A thing that the watch over a session asks for. `E` is the type of the failures outside the
/// library.
#[derive(Debug)]
pub enum RefreshRequest<E> {
    /// Wait for the next change. Answered by `Change` or `Closed`.
    NextChange,
    /// Renew the access token. Answered by `Refreshed` or `NotRefreshed`.
    RefreshAccessToken,
    /// Say whose session it is, which tokens it has and when they expire. Answered by `Session`.
    ReadSession,
    /// Say whose session it is. Answered by `User`.
    ReadUser,
    /// Something of the disk, the keyring or the file format. Answered by `Storage`.
    Storage(Request),
    /// Show the user an error. Answered by `Reported`.
    Report(AccountError<E>),
    /// Send the client, with its new tokens, to whoever uses it. Answered by `Sent`.
    SendClient,
}

/// The answer to a request of the watch over a session.
#[derive(Debug)]
pub enum RefreshReply<E> {
    Change(SessionChange),
    /// There will be no more changes, or some were missed.
    Closed,
    Refreshed,
    NotRefreshed(RefreshFailure<E>),
    /// Whose session it is, its tokens, and when the access token expires, in seconds since the
    /// Unix epoch, where that is known.
    Session { user_id: String, tokens: SessionTokens, expiration: Option<u64> },
    User(String),
    Storage(Reply<E>),
    Reported,
    Sent,
}

/// Where the watch over a session is.
#[derive(Debug, PartialEq, Eq)]
pub enum HandleRefreshTokens {
    Waiting,
    Refreshing,
    ReadingSession,
    Updating(UpdateAccountConfig),
    /// The tokens were renewed and kept.
    SendingClient,
    /// The tokens were renewed but not kept.
    ReportingUpdate,
    /// The tokens were not renewed.
    ReportingRefresh,
    ReadingUser,
    Removing(RemoveAccountConfig),
}

/// The watch over a session.
pub type Watching<E> = Progress<HandleRefreshTokens, RefreshRequest<E>, ()>;

/// Begins to watch over a session. The watch ends when the session is to be discarded.
///
/// When the access token is renewed, the new one, the refresh token and the expiration are kept
/// with the account, and the client is sent. An error to keep them is reported instead.
pub fn handle_refresh_tokens<E>() -> (out: Watching<E>)
    ensures
        out == waiting::<E>(),
{
    Progress::Ask { state: HandleRefreshTokens::Waiting, request: RefreshRequest::NextChange }
}

/// The watch, waiting for the next change.
pub open spec fn waiting<E>() -> Watching<E> {
    Progress::Ask { state: HandleRefreshTokens::Waiting, request: RefreshRequest::NextChange }
}

/// The watch, about to give the session up: the account is to be removed.
pub open spec fn giving_up<E>() -> Watching<E> {
    Progress::Ask { state: HandleRefreshTokens::ReadingUser, request: RefreshRequest::ReadUser }
}

/// Goes on with the update of the tokens: after it the client is sent, or an error reported.
fn watch_update<E>(updating: Updating<E>) -> (out: Watching<E>)
    ensures
        watches_update(updating, out),
{
    match updating {
        Progress::Ask { state, request } => Progress::Ask {
            state: HandleRefreshTokens::Updating(state),
            request: RefreshRequest::Storage(request),
        },
        Progress::Finished(Ok(_)) => Progress::Ask {
            state: HandleRefreshTokens::SendingClient,
            request: RefreshRequest::SendClient,
        },
        Progress::Finished(Err(error)) => Progress::Ask {
            state: HandleRefreshTokens::ReportingUpdate,
            request: RefreshRequest::Report(error),
        },
    }
}

/// Whether `out` asks what the update asks, or has the client sent after it, or its error reported.
pub open spec fn watches_update<E>(updating: Updating<E>, out: Watching<E>) -> bool {
    match updating {
        Progress::Ask { state, request } => out == Watching::<E>::Ask {
            state: HandleRefreshTokens::Updating(state),
            request: RefreshRequest::Storage(request),
        },
        Progress::Finished(Ok(_)) => out == Watching::<E>::Ask {
            state: HandleRefreshTokens::SendingClient,
            request: RefreshRequest::SendClient,
        },
        Progress::Finished(Err(error)) => out == Watching::<E>::Ask {
            state: HandleRefreshTokens::ReportingUpdate,
            request: RefreshRequest::Report(error),
        },
    }
}

/// Goes on with the removal of the account, with which the watch ends.
fn watch_removal<E>(removing: Removing) -> (out: Watching<E>)
    ensures
        watches_removal(removing, out),
{
    match removing {
        Progress::Ask { state, request } => Progress::Ask {
            state: HandleRefreshTokens::Removing(state),
            request: RefreshRequest::Storage(request),
        },
        Progress::Finished(_) => Progress::Finished(()),
    }
}

/// Whether `out` asks what the removal asks, or ends with it.
pub open spec fn watches_removal<E>(removing: Removing, out: Watching<E>) -> bool {
    match removing {
        Progress::Ask { state, request } => out == Watching::<E>::Ask {
            state: HandleRefreshTokens::Removing(state),
            request: RefreshRequest::Storage(request),
        },
        Progress::Finished(_) => out == Watching::<E>::Finished(()),
    }
}

/// What is to be kept of a renewal: its tokens and their expiration, all of them.
pub open spec fn renewed(tokens: SessionTokens, expiration: Option<u64>) -> TokenUpdate {
    TokenUpdate {
        access_token: Some(tokens.access_token),
        refresh_token: Some(tokens.refresh_token),
        expiration: Some(expiration),
    }
}

/// Whether `out` is how the watch goes on from `state` with `reply`.
pub open spec fn watch_step<E>(
    state: HandleRefreshTokens,
    reply: RefreshReply<E>,
    out: Watching<E>,
) -> bool {
    let ended = Watching::<E>::Finished(());
    match state {
        HandleRefreshTokens::Waiting => match reply {
            RefreshReply::Change(SessionChange::UnknownToken { soft_logout }) => if soft_logout {
                out == Watching::<E>::Ask {
                    state: HandleRefreshTokens::Refreshing,
                    request: RefreshRequest::RefreshAccessToken,
                }
            } else {
                out == giving_up::<E>()
            },
            RefreshReply::Change(SessionChange::TokensRefreshed) => out == waiting::<E>(),
            _ => out == ended,
        },
        HandleRefreshTokens::Refreshing => match reply {
            RefreshReply::Refreshed => out == Watching::<E>::Ask {
                state: HandleRefreshTokens::ReadingSession,
                request: RefreshRequest::ReadSession,
            },
            RefreshReply::NotRefreshed(failure) => match failure {
                RefreshFailure::RefreshTokenRequired => out == giving_up::<E>(),
                RefreshFailure::MatrixAuth { unknown_token, error } => if unknown_token {
                    out == giving_up::<E>()
                } else {
                    out == Watching::<E>::Ask {
                        state: HandleRefreshTokens::ReportingRefresh,
                        request: RefreshRequest::Report(AccountError::Outside(error)),
                    }
                },
                RefreshFailure::Other(error) => out == Watching::<E>::Ask {
                    state: HandleRefreshTokens::ReportingRefresh,
                    request: RefreshRequest::Report(AccountError::Outside(error)),
                },
            },
            _ => out == ended,
        },
        HandleRefreshTokens::ReadingSession => match reply {
            RefreshReply::Session { user_id, tokens, expiration } => watches_update(
                begun_update::<E>(user_id, renewed(tokens, expiration)),
                out,
            ),
            _ => out == ended,
        },
        HandleRefreshTokens::Updating(update) => match reply {
            RefreshReply::Storage(reply) => exists|updating: Updating<E>|
                update_step(update, reply, updating) && #[trigger] watches_update(updating, out),
            _ => out == ended,
        },
        HandleRefreshTokens::SendingClient => out == waiting::<E>(),
        HandleRefreshTokens::ReportingUpdate => out == waiting::<E>(),
        HandleRefreshTokens::ReportingRefresh => out == ended,
        HandleRefreshTokens::ReadingUser => match reply {
            RefreshReply::User(user_id) => watches_removal(begun_removal(user_id), out),
            _ => out == ended,
        },
        HandleRefreshTokens::Removing(removal) => match reply {
            RefreshReply::Storage(reply) => exists|removing: Removing|
                remove_step(removal, reply, removing) && #[trigger] watches_removal(removing, out),
            _ => out == ended,
        },
    }
}

impl HandleRefreshTokens {
    /// Goes on with the answer to the last request.
    pub fn resume<E>(self, reply: RefreshReply<E>) -> (out: Watching<E>)
        ensures
            watch_step(self, reply, out),
    {
        match self {
            HandleRefreshTokens::Waiting => match reply {
                RefreshReply::Change(SessionChange::UnknownToken { soft_logout }) => {
                    if soft_logout {
                        Progress::Ask {
                            state: HandleRefreshTokens::Refreshing,
                            request: RefreshRequest::RefreshAccessToken,
                        }
                    } else {
                        // The session is destroyed and must not be used again.
                        Progress::Ask {
                            state: HandleRefreshTokens::ReadingUser,
                            request: RefreshRequest::ReadUser,
                        }
                    }
                },
                RefreshReply::Change(SessionChange::TokensRefreshed) => Progress::Ask {
                    state: HandleRefreshTokens::Waiting,
                    request: RefreshRequest::NextChange,
                },
                _ => Progress::Finished(()),
            },
            HandleRefreshTokens::Refreshing => match reply {
                RefreshReply::Refreshed => Progress::Ask {
                    state: HandleRefreshTokens::ReadingSession,
                    request: RefreshRequest::ReadSession,
                },
                RefreshReply::NotRefreshed(failure) => match failure {
                    RefreshFailure::RefreshTokenRequired => Progress::Ask {
                        state: HandleRefreshTokens::ReadingUser,
                        request: RefreshRequest::ReadUser,
                    },
                    RefreshFailure::MatrixAuth { unknown_token, error } => {
                        if unknown_token {
                            Progress::Ask {
                                state: HandleRefreshTokens::ReadingUser,
                                request: RefreshRequest::ReadUser,
                            }
                        } else {
                            Progress::Ask {
                                state: HandleRefreshTokens::ReportingRefresh,
                                request: RefreshRequest::Report(AccountError::Outside(error)),
                            }
                        }
                    },
                    RefreshFailure::Other(error) => Progress::Ask {
                        state: HandleRefreshTokens::ReportingRefresh,
                        request: RefreshRequest::Report(AccountError::Outside(error)),
                    },
                },
                _ => Progress::Finished(()),
            },
            HandleRefreshTokens::ReadingSession => match reply {
                RefreshReply::Session { user_id, tokens, expiration } => watch_update(
                    update_account_config(
                        user_id,
                        Some(tokens.access_token),
                        Some(tokens.refresh_token),
                        Some(expiration),
                    ),
                ),
                _ => Progress::Finished(()),
            },
            HandleRefreshTokens::Updating(update) => match reply {
                RefreshReply::Storage(reply) => watch_update(update.resume(reply)),
                _ => Progress::Finished(()),
            },
            HandleRefreshTokens::SendingClient => Progress::Ask {
                state: HandleRefreshTokens::Waiting,
                request: RefreshRequest::NextChange,
            },
            HandleRefreshTokens::ReportingUpdate => Progress::Ask {
                state: HandleRefreshTokens::Waiting,
                request: RefreshRequest::NextChange,
            },
            HandleRefreshTokens::ReportingRefresh => Progress::Finished(()),
            HandleRefreshTokens::ReadingUser => match reply {
                RefreshReply::User(user_id) => watch_removal(remove_account_config(user_id)),
                _ => Progress::Finished(()),
            },
            HandleRefreshTokens::Removing(removal) => match reply {
                RefreshReply::Storage(reply) => watch_removal(removal.resume(reply)),
                _ => Progress::Finished(()),
            },
        }
    }
}

} // verus!
