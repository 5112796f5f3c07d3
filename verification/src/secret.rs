//! Secret values that do not show themselves.
use vstd::prelude::*;

verus! {

/// What is shown in place of a secret.
pub const REDACTED: &'static str = "[REDACTED]";

/// A secret. The only way to its cleartext is [`SecretString::expose_secret`];
/// the type has no other rendering than [`SecretString::redacted`].
pub struct SecretString {
    cleartext: String,
}

impl View for SecretString {
    type V = Seq<char>;

    closed spec fn view(&self) -> Seq<char> {
        self.cleartext@
    }
}

impl SecretString {
    /// Take `cleartext` into custody.
    pub fn new(cleartext: String) -> (r: Self)
        ensures
            r@ == cleartext@,
    {
        SecretString { cleartext }
    }

    /// The cleartext.
    pub fn expose_secret(&self) -> (r: &str)
        ensures
            r@ == self@,
    {
        self.cleartext.as_str()
    }

    /// The rendering of a secret, which is the same for every secret.
    pub fn redacted(&self) -> (r: &'static str)
        ensures
            r@ == REDACTED@,
    {
        REDACTED
    }
}

impl PartialEq for SecretString {
    fn eq(&self, other: &Self) -> (r: bool) {
        self.cleartext == other.cleartext
    }
}

impl vstd::std_specs::cmp::PartialEqSpecImpl for SecretString {
    open spec fn obeys_eq_spec() -> bool {
        true
    }

    open spec fn eq_spec(&self, other: &Self) -> bool {
        self@ == other@
    }
}

} // verus!
