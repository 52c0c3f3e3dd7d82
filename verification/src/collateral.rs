//! Collateral handling: virtual mode keeps internal balances only; real
//! mode moves a token through its contract. The decisions are made here;
//! the caller performs the token transfer that a decision calls for.
use vstd::prelude::*;

use crate::errors::ContractError;
use soroban_sdk::Address;

verus! {

/// An address on the network (a token contract, a user).
#[verifier::external_type_specification]
#[verifier::external_body]
pub struct ExAddress(soroban_sdk::Address);

/// How collateral is held.
#[derive(Clone, Copy, Debug, PartialEq, Eq, Structural)]
pub enum CollateralMode {
    /// Internal balance accounting only.
    Virtual,
    /// Transfers of a real token.
    RealToken,
}

/// The collateral operations of the protocol. Each returns, on success,
/// the token contract through which a transfer must be made, or `None`
/// when no transfer is due.
pub trait CollateralAdapter {
    /// Escrows `amount` from a user into the contract.
    fn lock(&self, amount: i128) -> Result<Option<&Address>, ContractError>;

    /// Releases `amount` from the contract back to a user.
    fn release(&self, amount: i128) -> Result<Option<&Address>, ContractError>;

    /// Pays `amount` of winnings out of the contract.
    fn payout(&self, amount: i128) -> Result<Option<&Address>, ContractError>;

    /// Transfers `amount` of protocol fee to the treasury.
    fn collect_fee(&self, amount: i128) -> Result<Option<&Address>, ContractError>;
}

/// The standard adapter, in either mode.
pub struct StandardCollateralAdapter {
    pub mode: CollateralMode,
    pub token_address: Option<Address>,
}

/// The decision on a collateral movement: a positive amount is required;
/// virtual mode moves nothing, real mode needs its token.
pub open spec fn movement_ok(a: &StandardCollateralAdapter, amount: i128) -> Result<(), ContractError> {
    if amount <= 0 {
        Err(ContractError::InvalidAmount)
    } else if a.mode == CollateralMode::RealToken && a.token_address is None {
        Err(ContractError::InvalidAmount)
    } else {
        Ok(())
    }
}

impl StandardCollateralAdapter {
    /// The virtual-mode adapter.
    pub fn virtual_mode() -> (a: Self)
        ensures
            a.mode == CollateralMode::Virtual,
            a.token_address is None,
    {
        StandardCollateralAdapter { mode: CollateralMode::Virtual, token_address: None }
    }

    /// The real-mode adapter over a token contract.
    pub fn real_mode(token_address: Address) -> (a: Self)
        ensures
            a.mode == CollateralMode::RealToken,
            a.token_address == Some(token_address),
    {
        StandardCollateralAdapter { mode: CollateralMode::RealToken, token_address: Some(token_address) }
    }

    fn movement(&self, amount: i128) -> (r: Result<Option<&Address>, ContractError>)
        ensures
            movement_ok(self, amount) is Err ==> r == Err::<Option<&Address>, ContractError>(
                movement_ok(self, amount)->Err_0,
            ),
            movement_ok(self, amount) is Ok && self.mode == CollateralMode::Virtual ==> r
                == Ok::<Option<&Address>, ContractError>(None),
            movement_ok(self, amount) is Ok && self.mode == CollateralMode::RealToken ==> (r matches Ok(
                Some(t),
            ) && Some(*t) == self.token_address),
    {
        if amount <= 0 {
            return Err(ContractError::InvalidAmount);
        }
        match self.mode {
            CollateralMode::Virtual => Ok(None),
            CollateralMode::RealToken => match &self.token_address {
                Some(t) => Ok(Some(t)),
                None => Err(ContractError::InvalidAmount),
            },
        }
    }
}

impl CollateralAdapter for StandardCollateralAdapter {
    fn lock(&self, amount: i128) -> (r: Result<Option<&Address>, ContractError>)
        ensures
            movement_ok(self, amount) is Err ==> r == Err::<Option<&Address>, ContractError>(
                movement_ok(self, amount)->Err_0,
            ),
            movement_ok(self, amount) is Ok && self.mode == CollateralMode::Virtual ==> r
                == Ok::<Option<&Address>, ContractError>(None),
            movement_ok(self, amount) is Ok && self.mode == CollateralMode::RealToken ==> (r matches Ok(
                Some(t),
            ) && Some(*t) == self.token_address),
    {
        self.movement(amount)
    }

    fn release(&self, amount: i128) -> (r: Result<Option<&Address>, ContractError>)
        ensures
            movement_ok(self, amount) is Err ==> r == Err::<Option<&Address>, ContractError>(
                movement_ok(self, amount)->Err_0,
            ),
            movement_ok(self, amount) is Ok && self.mode == CollateralMode::Virtual ==> r
                == Ok::<Option<&Address>, ContractError>(None),
            movement_ok(self, amount) is Ok && self.mode == CollateralMode::RealToken ==> (r matches Ok(
                Some(t),
            ) && Some(*t) == self.token_address),
    {
        self.movement(amount)
    }

    fn payout(&self, amount: i128) -> (r: Result<Option<&Address>, ContractError>)
        ensures
            movement_ok(self, amount) is Err ==> r == Err::<Option<&Address>, ContractError>(
                movement_ok(self, amount)->Err_0,
            ),
            movement_ok(self, amount) is Ok && self.mode == CollateralMode::Virtual ==> r
                == Ok::<Option<&Address>, ContractError>(None),
            movement_ok(self, amount) is Ok && self.mode == CollateralMode::RealToken ==> (r matches Ok(
                Some(t),
            ) && Some(*t) == self.token_address),
    {
        self.release(amount)
    }

    fn collect_fee(&self, amount: i128) -> (r: Result<Option<&Address>, ContractError>)
        ensures
            movement_ok(self, amount) is Err ==> r == Err::<Option<&Address>, ContractError>(
                movement_ok(self, amount)->Err_0,
            ),
            movement_ok(self, amount) is Ok && self.mode == CollateralMode::Virtual ==> r
                == Ok::<Option<&Address>, ContractError>(None),
            movement_ok(self, amount) is Ok && self.mode == CollateralMode::RealToken ==> (r matches Ok(
                Some(t),
            ) && Some(*t) == self.token_address),
    {
        self.release(amount)
    }
}

} // verus!
