//! Binding model of the SafeCastLib library contract.
//!
//! The on-chain SafeCastLib library exposes no constructor, no functions and
//! no events; its binding only carries the account address an instance is
//! bound to and prepares a deployment. Submitting the deployment transaction
//! and talking to the ledger are the caller's business: the binding itself
//! holds plain values only.

use vstd::prelude::*;
use crate::errors::SimError;

verus! {

/// How many bytes a ledger account address has.
pub const ADDRESS_LEN: u64 = 20;

/// A twenty-byte ledger account address.
#[derive(Clone, Debug, PartialEq, Eq)]
pub struct Address {
    /// The raw address bytes.
    pub bytes: Vec<u8>,
}

impl Address {
    /// Invariant: exactly twenty bytes.
    pub open spec fn wf(self) -> bool {
        self.bytes@.len() == ADDRESS_LEN
    }

    /// Builds an address from raw bytes; anything but twenty bytes is
    /// rejected as `InvalidConfig`.
    pub fn from_bytes(bytes: Vec<u8>) -> (r: Result<Address, SimError>)
        ensures
            r is Ok <==> bytes@.len() == ADDRESS_LEN,
            r matches Ok(a) ==> a.bytes@ == bytes@ && a.wf(),
            r is Err ==> r->Err_0 == SimError::InvalidConfig,
    {
        if bytes.len() == 20 {
            Ok(Address { bytes })
        } else {
            Err(SimError::InvalidConfig)
        }
    }
}

/// A prepared deployment of the SafeCastLib contract, ready for a ledger
/// client to submit.
#[derive(Debug)]
pub struct SafeCastLibDeployer {
    /// The constructor arguments the deployment will send; always empty,
    /// since the contract declares no constructor.
    pub constructor_args: Vec<u64>,
}

/// An instance of the SafeCastLib contract bound to a deployed address.
#[derive(Debug)]
pub struct SafeCastLib {
    /// The account address the instance is bound to.
    pub address: Address,
}

impl SafeCastLib {
    /// Invariant: the bound address is well formed.
    pub open spec fn wf(self) -> bool {
        self.address.wf()
    }

    /// Binds a new instance to the contract deployed at `address`.
    pub fn new(address: Address) -> (s: SafeCastLib)
        requires
            address.wf(),
        ensures
            s.address == address,
            s.wf(),
    {
        SafeCastLib { address }
    }

    /// Prepares a deployment. The contract's interface declares no
    /// constructor, so any constructor argument is rejected.
    pub fn deploy(constructor_args: Vec<u64>) -> (r: Result<SafeCastLibDeployer, SimError>)
        ensures
            r is Ok <==> constructor_args@.len() == 0,
            r matches Ok(d) ==> d.constructor_args@ == constructor_args@,
            r is Err ==> r->Err_0 == SimError::InvalidConfig,
    {
        if constructor_args.len() == 0 {
            Ok(SafeCastLibDeployer { constructor_args })
        } else {
            Err(SimError::InvalidConfig)
        }
    }
}

} // verus!
