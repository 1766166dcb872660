use vstd::prelude::*;

verus! {

/// An identity on the ledger, held by its textual key.
///
/// Two addresses are the same identity exactly when their keys are the same text.
#[derive(Debug)]
pub struct Address {
    pub key: String,
}

impl View for Address {
    type V = Seq<char>;

    open spec fn view(&self) -> Seq<char> {
        self.key@
    }
}

impl Address {
    /// The address with the given textual key.
    pub fn new(key: String) -> (r: Address)
        ensures
            r@ == key@,
    {
        Address { key }
    }

    /// The address whose key is the given text.
    pub fn from_str(key: &str) -> (r: Address)
        ensures
            r@ == key@,
    {
        Address { key: key.to_owned() }
    }

    /// Whether two addresses are the same identity.
    pub fn same(&self, other: &Address) -> (r: bool)
        ensures
            r == (self@ == other@),
    {
        self.key == other.key
    }
}

/// Evidence that one identity authorized the call that is being handled.
///
/// Whoever receives calls makes one after the signer's authorization was checked; the
/// operations that need an authorization compare its signer with the identity they act for.
#[derive(Debug)]
pub struct Auth {
    pub signer: Address,
}

impl View for Auth {
    type V = Seq<char>;

    open spec fn view(&self) -> Seq<char> {
        self.signer@
    }
}

impl Auth {
    /// The authorization given by `signer`.
    pub fn of(signer: Address) -> (r: Auth)
        ensures
            r@ == signer@,
    {
        Auth { signer }
    }

    /// Whether the call was authorized by `who`.
    pub fn covers(&self, who: &Address) -> (r: bool)
        ensures
            r == (self@ == who@),
    {
        self.signer.same(who)
    }
}

impl Clone for Address {
    fn clone(&self) -> (r: Address)
        ensures
            r == *self,
    {
        Address { key: self.key.clone() }
    }
}

} // verus!
