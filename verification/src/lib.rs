//! Accounts of a Matrix client: which ones there are, how they are kept on disk, and how a
//! session is opened, renewed and given up.
//!
//! An account is kept in four places: the list of accounts, an encrypted file, the folder of the
//! client's store, and the keyring, which holds the passphrase. The operations ask for what has to
//! be done there, one request at a time ([`request`]), and go on with the answers. The laws in
//! the modules whose names end in `_laws` speak of all ways in which the requests can turn out,
//! over the model in [`world`].

pub mod account;
pub mod account_laws;
pub mod activate;
pub mod activate_laws;
pub mod active_login_laws;
pub mod answer_laws;
pub mod files;
pub mod login;
pub mod login_laws;
pub mod login_types;
pub mod new_login_laws;
pub mod orphans;
pub mod refresh;
pub mod refresh_laws;
pub mod remove;
pub mod remove_laws;
pub mod request;
pub mod save;
pub mod save_laws;
pub mod session;
pub mod sweep_laws;
pub mod update;
pub mod update_laws;
pub mod vault;
pub mod world;
