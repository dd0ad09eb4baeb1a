//! What protects an account's secrets: the passphrase and the encryption of its file.

use crate::files::alphanumeric;
use crate::files::is_credential;
use crate::files::CREDENTIAL_LENGTH;
use age::secrecy::SecretString;
use rand::distr::Alphanumeric;
use rand::distr::SampleString;
use vstd::prelude::*;

verus! {

/// `age`'s error on encryption.
#[verifier::external_type_specification]
#[verifier::external_body]
pub struct ExEncryptError(age::EncryptError);

/// `age`'s error on decryption.
#[verifier::external_type_specification]
#[verifier::external_body]
pub struct ExDecryptError(age::DecryptError);

/// Why an encrypted file was not opened.
#[derive(Debug)]
pub enum OpenError {
    /// Deriving the key takes more work than this machine is to be put to: so it judges itself,
    /// by its speed at the moment.
    ExcessiveWork { required: u8, target: u8 },
    /// The bytes are no encrypted file, or it is under another passphrase.
    Unreadable(age::DecryptError),
}

/// What `age::decrypt` makes of `sealed` under `passphrase` where it takes on the work of
/// deriving the key: the plaintext, or nothing where it finds an error.
pub uninterp spec fn age_plaintext(sealed: Seq<u8>, passphrase: Seq<char>) -> Option<Seq<u8>>;

/// Encrypts `plaintext` by `age::encrypt` to a recipient that `age::scrypt::Recipient::new`
/// makes of `passphrase`.
///
/// The call gives bytes: it has one recipient, that recipient wraps every key, and what is written
/// goes to memory, so none of its errors comes about. The salt, the key of the file and the work
/// put into it are drawn or measured anew by each call, so of the bytes only this is claimed:
/// `age::decrypt` under the same passphrase gives the plaintext back.
#[verifier::external_body]
pub(crate) fn seal(plaintext: &[u8], passphrase: &str) -> (sealed: Result<Vec<u8>, age::EncryptError>)
    ensures
        sealed is Ok,
        sealed matches Ok(bytes) ==> age_plaintext(bytes@, passphrase@) == Some(plaintext@),
{
    let recipient = age::scrypt::Recipient::new(SecretString::from(passphrase));
    age::encrypt(&recipient, plaintext)
}

/// Decrypts `sealed` by `age::decrypt` with the identity that `age::scrypt::Identity::new` makes
/// of `passphrase`.
///
/// The identity measures how fast the machine is and turns down a file that would take too long:
/// the one outcome that its arguments do not settle. Otherwise they settle whether there is a
/// plaintext, and which. That there is none under another passphrase than the one a file was
/// encrypted with is left unsaid: passphrases that differ in zero characters at their end derive
/// the same key.
#[verifier::external_body]
pub(crate) fn unseal(sealed: &[u8], passphrase: &str) -> (opened: Result<Vec<u8>, OpenError>)
    ensures
        opened matches Ok(bytes) ==> age_plaintext(sealed@, passphrase@) == Some(bytes@),
        opened matches Err(OpenError::Unreadable(_)) ==> age_plaintext(sealed@, passphrase@)
            is None,
{
    let identity = age::scrypt::Identity::new(SecretString::from(passphrase));
    match age::decrypt(&identity, sealed) {
        Ok(plaintext) => Ok(plaintext),
        Err(age::DecryptError::ExcessiveWork { required, target }) => {
            Err(OpenError::ExcessiveWork { required, target })
        },
        Err(error) => Err(OpenError::Unreadable(error)),
    }
}

/// Whether `sealed` is an outcome that the encryption of `plaintext` can have.
pub open spec fn seals(
    plaintext: Seq<u8>,
    passphrase: Seq<char>,
    sealed: Result<Vec<u8>, age::EncryptError>,
) -> bool {
    sealed matches Ok(bytes) && age_plaintext(bytes@, passphrase) == Some(plaintext)
}

/// Whether `opened` is an outcome that the decryption of `sealed` can have.
pub open spec fn opens(
    sealed: Seq<u8>,
    passphrase: Seq<char>,
    opened: Result<Vec<u8>, OpenError>,
) -> bool {
    match opened {
        Ok(bytes) => age_plaintext(sealed, passphrase) == Some(bytes@),
        Err(OpenError::Unreadable(_)) => age_plaintext(sealed, passphrase) is None,
        Err(OpenError::ExcessiveWork { .. }) => true,
    }
}

/// Draws a text by `sample_string` of `rand::distr::Alphanumeric`, from the generator that
/// `rand::rng` gives the thread: `length` ASCII letters and digits, whichever they are.
#[verifier::external_body]
fn draw_alphanumeric(length: usize) -> (text: String)
    requires
        length <= isize::MAX,
    ensures
        text@.len() == length,
        forall|i: int| 0 <= i < text@.len() ==> alphanumeric(#[trigger] text@[i]),
{
    Alphanumeric.sample_string(&mut rand::rng(), length)
}

/// Draws the id and the passphrase of a new account.
///
/// Each is a draw of its own; that the two differ, or that another call gives others, is a matter
/// of chance and not claimed.
pub fn generate_account_credentials() -> (credentials: (String, String))
    ensures
        is_credential(credentials.0@),
        is_credential(credentials.1@),
{
    // The id names the client's store and the account's other files.
    let id = draw_alphanumeric(CREDENTIAL_LENGTH);
    // The passphrase encrypts both.
    let encryption_passphrase = draw_alphanumeric(CREDENTIAL_LENGTH);
    (id, encryption_passphrase)
}

} // verus!
