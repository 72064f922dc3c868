//! Support for the identity module.

use crate::error::Error;
use crate::extrinsic::{Signer, Submitted, XtBuilder};
use crate::metadata::{Encoded, Metadata};
use vstd::prelude::*;

verus! {

/// The name under which a runtime declares the identity module.
pub const MODULE: &'static str = "Litentry";

/// The name of the call that registers an identity for the sender.
pub const REGISTER_IDENTITY: &'static str = "register_identity";

/// A description of a runtime that carries the identity module.
pub trait Litentry {
    /// The payload of the call that registers an identity. It takes no arguments.
    fn register_identity_call(&self) -> Result<Encoded, Error>;
}

impl Litentry for Metadata {
    fn register_identity_call(&self) -> (r: Result<Encoded, Error>)
        ensures
            match self@.encode_call(MODULE@, REGISTER_IDENTITY@, Seq::empty()) {
                Ok(payload) => r matches Ok(e) && e@ == payload,
                Err(e) => r matches Err(err) && err@ == e,
            },
    {
        let none: Vec<Vec<u8>> = Vec::new();
        assert(crate::metadata::views(none@) =~= Seq::empty());
        self.encode_call(MODULE, REGISTER_IDENTITY, none.as_slice())
    }
}

/// The calls of the identity module, for a builder of extrinsics.
pub trait LitentryCalls {
    /// Signs the call that registers an identity for the sender, for submission
    /// without waiting.
    fn register_identity(&mut self) -> Result<Submitted, Error>;
}

impl<P: Signer> LitentryCalls for XtBuilder<P> {
    fn register_identity(&mut self) -> (r: Result<Submitted, Error>)
        ensures
            XtBuilder::submitted(
                old(self),
                final(self),
                MODULE@,
                REGISTER_IDENTITY@,
                Seq::empty(),
                match r {
                    Ok(s) => Ok(s.extrinsic),
                    Err(e) => Err(e),
                },
            ),
    {
        let none: Vec<Vec<u8>> = Vec::new();
        assert(crate::metadata::views(none@) =~= Seq::empty());
        self.submit(MODULE, REGISTER_IDENTITY, none.as_slice())
    }
}

} // verus!
