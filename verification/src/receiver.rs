//! The message that tells a contract what it has been sent.
//!
//! Its bytes are made by the `cw20` crate. Nothing here is proved of them:
//! they are named, so that what is said of a response can speak of them.

use vstd::prelude::*;

verus! {

/// The error type of `cosmwasm_std`, carried through and never looked into.
#[verifier::external_type_specification]
#[verifier::external_body]
pub struct ExStdError(cosmwasm_std::StdError);

/// The bytes into which `cw20::Cw20ReceiveMsg::into_binary` serialises a
/// message with this sender, amount and inner message.
pub uninterp spec fn receive_msg_bytes(sender: Seq<char>, amount: u128, msg: Seq<u8>) -> Seq<u8>;

/// Calls `cw20::Cw20ReceiveMsg::into_binary` on a message made of the three
/// values. Trusted: where the call succeeds, its bytes are those that
/// `receive_msg_bytes` names for these values. Nothing is claimed of when it
/// succeeds.
#[verifier::external_body]
pub(crate) fn receive_msg_into_binary(sender: &String, amount: u128, msg: &Vec<u8>) -> (r: Result<
    Vec<u8>,
    cosmwasm_std::StdError,
>)
    ensures
        r is Ok ==> r->Ok_0@ == receive_msg_bytes(sender@, amount, msg@),
{
    let message = cw20::Cw20ReceiveMsg {
        sender: sender.clone(),
        amount: cosmwasm_std::Uint128::new(amount),
        msg: cosmwasm_std::Binary::from(msg.as_slice()),
    };
    match message.into_binary() {
        Ok(bytes) => Ok(bytes.0),
        Err(e) => Err(e),
    }
}

} // verus!
