//! The command that signs a message with a secret key.

use vstd::prelude::*;
use vstd::string::StringSliceAdditionalSpecFns;
use crate::dispatch::sign;
use crate::dispatch::spec_public_of;
use crate::dispatch::spec_secret_of;
use crate::dispatch::spec_verifies;
use crate::dispatch::CryptoScheme;
use crate::dispatch::SignError;
use crate::encoding::hex_text;

verus! {

/// The `sign` command: what was given on the command line.
#[derive(Clone, Debug)]
pub struct SignCmd {
    /// The secret key text. Where it names a file, the file holds the text;
    /// where there is none, it is asked for.
    pub suri: Option<String>,
    /// The message to sign; where there is none, it is read from the input.
    pub message: Option<String>,
    /// Whether the message on the input is hexadecimal.
    pub hex: bool,
    /// The scheme to sign under.
    pub crypto_scheme: CryptoScheme,
}

impl SignCmd {
    /// The signature text of `message` under the pair that `suri` and
    /// `password` stand for, in the scheme of the command.
    pub fn signature(&self, suri: &str, password: &str, message: &[u8]) -> (out: Result<
        String,
        SignError,
    >)
        ensures
            match spec_secret_of(
                self.crypto_scheme,
                suri.spec_bytes(),
                Some(password.spec_bytes()),
            ) {
                Err(e) => out == Err::<String, SignError>(SignError::Secret(e)),
                Ok(secret) => match out {
                    Ok(text) => exists|signature: Seq<u8>|
                        text@ == hex_text(signature) && #[trigger] spec_verifies(
                            self.crypto_scheme,
                            signature,
                            message@,
                            spec_public_of(self.crypto_scheme, secret)->0,
                        ),
                    Err(e) => e == SignError::NoSignature,
                },
            },
    {
        sign(self.crypto_scheme, suri, password, message)
    }
}

} // verus!
