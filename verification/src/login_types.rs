//! The ways in which a homeserver lets a user log in.

use vstd::prelude::*;

verus! {

/// A provider of identities, such as one that a user already has an account with.
#[derive(Debug, PartialEq, Eq)]
pub struct IdentityProvider {
    pub id: String,
    pub name: String,
    pub icon: Option<String>,
    pub brand: Option<String>,
}

/// What a homeserver says of its login by SSO.
#[derive(Debug, PartialEq, Eq)]
pub struct SsoLoginType {
    pub identity_providers: Vec<IdentityProvider>,
    /// Whether a client that knows OAuth is to offer this login only.
    pub oauth_aware_preferred: bool,
}

/// A kind of login that a homeserver offers.
#[derive(Debug, PartialEq, Eq)]
pub enum LoginType {
    Password,
    Token,
    Sso(SsoLoginType),
    Other,
}

/// A kind of login that the client offers its user.
#[derive(Debug, PartialEq, Eq)]
pub enum LoginChoice {
    /// Password login
    Password,
    /// SSO login
    Sso {
        /// The identity providers
        identity_providers: Vec<IdentityProvider>,
    },
    /// OAuth 2.0 login
    Oauth {
        /// Whether the client should pass over all other methods and only advertise OAuth
        preferred: bool,
    },
}

/// Why a homeserver's OAuth metadata was not had.
#[derive(Debug)]
pub enum MetadataError<E> {
    /// The homeserver does not know OAuth.
    NotSupported,
    /// The request failed.
    Failed(E),
}

/// The first login by SSO among `login_types`, at `at`.
pub open spec fn first_sso(login_types: Seq<LoginType>, at: int) -> bool {
    &&& 0 <= at < login_types.len()
    &&& login_types[at] is Sso
    &&& forall|j: int| 0 <= j < at ==> !(#[trigger] login_types[j] is Sso)
}

/// What the homeserver says of its login by SSO, the first time that it does.
pub open spec fn sso_offered(login_types: Seq<LoginType>) -> Option<SsoLoginType> {
    if exists|at: int| first_sso(login_types, at) {
        Some(login_types[choose|at: int| first_sso(login_types, at)]->Sso_0)
    } else {
        None
    }
}

/// What the client offers: the password where the homeserver takes one; OAuth where the homeserver
/// knows it, before all others where its login by SSO says so; and SSO where the homeserver has it
/// and takes login tokens, without which the login could not be completed.
pub open spec fn choices(login_types: Seq<LoginType>, oauth: bool) -> Seq<LoginChoice> {
    let sso = sso_offered(login_types);
    let by_password = if login_types.contains(LoginType::Password) {
        seq![LoginChoice::Password]
    } else {
        seq![]
    };
    let by_oauth = if oauth {
        seq![LoginChoice::Oauth { preferred: sso is Some && sso->0.oauth_aware_preferred }]
    } else {
        seq![]
    };
    let by_sso = if sso is Some && login_types.contains(LoginType::Token) {
        seq![LoginChoice::Sso { identity_providers: sso->0.identity_providers }]
    } else {
        seq![]
    };
    by_password + by_oauth + by_sso
}

/// The logins to offer, by what the homeserver offers and what came of asking for its OAuth
/// metadata; or the failure of that.
pub open spec fn offers<E>(
    login_types: Seq<LoginType>,
    server_metadata: Result<(), MetadataError<E>>,
) -> Result<Seq<LoginChoice>, E> {
    match server_metadata {
        Ok(_) => Ok(choices(login_types, true)),
        Err(MetadataError::NotSupported) => Ok(choices(login_types, false)),
        Err(MetadataError::Failed(error)) => Err(error),
    }
}

/// The logins to offer at a homeserver that offers `login_types`, by what came of asking for its
/// OAuth metadata. There may be none.
///
/// A failure to get the metadata, other than that the homeserver has none, is handed on.
pub fn get_login_types<E>(
    login_types: Vec<LoginType>,
    server_metadata: Result<(), MetadataError<E>>,
) -> (offered: Result<Vec<LoginChoice>, E>)
    ensures
        match offered {
            Ok(types) => offers(login_types@, server_metadata) == Ok::<Seq<LoginChoice>, E>(types@),
            Err(error) => offers(login_types@, server_metadata) == Err::<Seq<LoginChoice>, E>(
                error,
            ),
        },
{
    let oauth_supported: bool = match server_metadata {
        Ok(_) => true,
        Err(MetadataError::NotSupported) => false,
        Err(MetadataError::Failed(error)) => return Err(error),
    };
    let mut types: Vec<LoginChoice> = Vec::new();
    let mut password: bool = false;
    let mut token: bool = false;
    let mut sso: Option<usize> = None;
    let mut at: usize = 0;
    while at < login_types.len()
        invariant
            at <= login_types@.len(),
            password == login_types@.take(at as int).contains(LoginType::Password),
            token == login_types@.take(at as int).contains(LoginType::Token),
            match sso {
                Some(i) => i < at && first_sso(login_types@, i as int),
                None => forall|j: int| 0 <= j < at ==> !(#[trigger] login_types@[j] is Sso),
            },
        decreases login_types@.len() - at,
    {
        proof {
            let taken = login_types@.take(at as int);
            let login_type = login_types@[at as int];
            assert(login_types@.take(at + 1) =~= taken.push(login_type));
            assert forall|x: LoginType| #[trigger]
                taken.push(login_type).contains(x) == (taken.contains(x) || x == login_type) by {
                if taken.contains(x) {
                    let i = choose|i: int| 0 <= i < taken.len() && taken[i] == x;
                    assert(taken.push(login_type)[i] == x);
                }
                assert(taken.push(login_type)[taken.len() as int] == login_type);
            }
        }
        match &login_types[at] {
            LoginType::Password => {
                password = true;
            },
            LoginType::Token => {
                token = true;
            },
            LoginType::Sso(_) => {
                if sso.is_none() {
                    sso = Some(at);
                }
            },
            LoginType::Other => {},
        }
        at = at + 1;
    }
    assert(login_types@.take(at as int) =~= login_types@);
    if password {
        types.push(LoginChoice::Password);
    }
    let ghost all = login_types@;
    let mut login_types = login_types;
    let sso: Option<SsoLoginType> = match sso {
        Some(at) => {
            proof {
                let chosen = choose|at: int| first_sso(all, at);
                assert(first_sso(all, at as int));
                assert(chosen == at);
            }
            match login_types.remove(at) {
                LoginType::Sso(sso) => Some(sso),
                _ => None,
            }
        },
        None => None,
    };
    assert(sso == sso_offered(all));
    if oauth_supported {
        let preferred: bool = match &sso {
            Some(sso) => sso.oauth_aware_preferred,
            None => false,
        };
        types.push(LoginChoice::Oauth { preferred });
    }
    if let Some(sso) = sso {
        if token {
            types.push(LoginChoice::Sso { identity_providers: sso.identity_providers });
        }
    }
    assert(types@ =~= choices(all, oauth_supported));
    Ok(types)
}

} // verus!
