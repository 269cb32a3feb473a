//! Building the input of a work log update proof: the update taken from a log-builder
//! journal, who receives its value, and the checks before the update is signed.
use crate::address::{Address, Digest};
use crate::u256::U256;
use crate::work_log::LogBuilderJournal;
use vstd::prelude::*;

verus! {

/// A work log update as the PoVW accounting contract receives it.
#[derive(Clone, Copy, Debug, PartialEq, Eq, Structural)]
pub struct WorkLogUpdate {
    pub work_log_id: Address,
    pub initial_commit: Digest,
    pub updated_commit: Digest,
    pub update_value: U256,
    pub value_recipient: Address,
}

impl WorkLogUpdate {
    /// The update that a log-builder journal describes, its value going to `value_recipient`.
    pub fn from_log_builder_journal(journal: LogBuilderJournal, value_recipient: Address) -> (r:
        Self)
        ensures
            r.work_log_id == journal.work_log_id,
            r.initial_commit == journal.initial_commit,
            r.updated_commit == journal.updated_commit,
            r.update_value.value() == journal.update_value,
            r.value_recipient == value_recipient,
    {
        WorkLogUpdate {
            work_log_id: journal.work_log_id,
            initial_commit: journal.initial_commit,
            updated_commit: journal.updated_commit,
            update_value: U256::from_u64(journal.update_value),
            value_recipient,
        }
    }
}

/// Why a signature over an update is refused.
#[derive(Clone, Copy, Debug, PartialEq, Eq, Structural)]
pub enum SignatureError {
    /// The signature recovers to another signer than the one expected.
    SignerMismatch { recovered: Address, expected: Address },
}

/// Accepts a signature whose recovered signer is the expected one.
pub fn check_recovered_signer(recovered: Address, expected: Address) -> (r: Result<(), SignatureError>)
    ensures
        recovered == expected <==> r is Ok,
        r is Err ==> r == Err::<(), SignatureError>(
            SignatureError::SignerMismatch { recovered, expected },
        ),
{
    if recovered == expected {
        Ok(())
    } else {
        Err(SignatureError::SignerMismatch { recovered, expected })
    }
}

/// The input of a log update proof.
pub struct LogUpdaterInput {
    /// The update built by the log builder.
    pub update: LogBuilderJournal,
    /// Address that receives any value of the update.
    pub value_recipient: Address,
    /// EIP-712 signature by the key of the work log ID.
    pub signature: Vec<u8>,
    /// Address of the PoVW accounting contract, in the EIP-712 domain.
    pub contract_address: Address,
    /// EIP-155 chain ID, in the EIP-712 domain.
    pub chain_id: u64,
}

/// Why an input cannot be built or signed.
#[derive(Clone, Copy, Debug, PartialEq, Eq, Structural)]
pub enum InputBuildError {
    /// The input is signed already.
    AlreadySigned,
    /// A field is not set; the name says which.
    UninitializedUpdate,
    UninitializedValueRecipient,
    UninitializedSignature,
    UninitializedContractAddress,
    UninitializedChainId,
    /// The signer's address is not the work log ID.
    SignerMismatch,
}

/// What the signer signs: the update with its value recipient, in the EIP-712 domain of the
/// contract and chain.
#[derive(Clone, Copy, Debug, PartialEq, Eq, Structural)]
pub struct SigningRequest {
    pub update: WorkLogUpdate,
    pub contract_address: Address,
    pub chain_id: u64,
}

/// A builder of a log update input; unset fields are `None`.
pub struct InputBuilder {
    pub update: Option<LogBuilderJournal>,
    pub value_recipient: Option<Address>,
    pub signature: Option<Vec<u8>>,
    pub contract_address: Option<Address>,
    pub chain_id: Option<u64>,
}

impl InputBuilder {
    /// A builder with no field set.
    pub fn new() -> (r: Self)
        ensures
            r.update is None,
            r.value_recipient is None,
            r.signature is None,
            r.contract_address is None,
            r.chain_id is None,
    {
        InputBuilder {
            update: None,
            value_recipient: None,
            signature: None,
            contract_address: None,
            chain_id: None,
        }
    }

    /// Prepares signing by `signer`: the input must not be signed yet, its update, contract
    /// address and chain ID must be set, and the signer must be the work log ID. The value
    /// recipient defaults to the signer. Returns what to sign.
    pub fn prepare_signing(&mut self, signer: Address) -> (r: Result<SigningRequest, InputBuildError>)
        ensures
            old(self).signature is Some ==> r == Err::<SigningRequest, InputBuildError>(
                InputBuildError::AlreadySigned,
            ),
            old(self).signature is None && old(self).update is None ==> r == Err::<
                SigningRequest,
                InputBuildError,
            >(InputBuildError::UninitializedUpdate),
            old(self).signature is None && old(self).update is Some
                && old(self).contract_address is None ==> r == Err::<
                SigningRequest,
                InputBuildError,
            >(InputBuildError::UninitializedContractAddress),
            old(self).signature is None && old(self).update is Some
                && old(self).contract_address is Some && old(self).chain_id is None ==> r == Err::<
                SigningRequest,
                InputBuildError,
            >(InputBuildError::UninitializedChainId),
            old(self).signature is None && old(self).update is Some
                && old(self).contract_address is Some && old(self).chain_id is Some
                && old(self).update->0.work_log_id != signer ==> r == Err::<
                SigningRequest,
                InputBuildError,
            >(InputBuildError::SignerMismatch),
            old(self).signature is None && old(self).update is Some
                && old(self).contract_address is Some && old(self).chain_id is Some
                && old(self).update->0.work_log_id == signer ==> r is Ok,
            r is Err ==> final(self).value_recipient == old(self).value_recipient,
            r matches Ok(req) ==> {
                &&& old(self).signature is None
                &&& old(self).update matches Some(u) && u.work_log_id == signer
                &&& final(self).value_recipient == Some(
                    match old(self).value_recipient {
                        Some(v) => v,
                        None => signer,
                    },
                )
                &&& req.update.work_log_id == old(self).update->0.work_log_id
                &&& req.update.initial_commit == old(self).update->0.initial_commit
                &&& req.update.updated_commit == old(self).update->0.updated_commit
                &&& req.update.update_value.value() == old(self).update->0.update_value
                &&& req.update.value_recipient == final(self).value_recipient->0
                &&& old(self).contract_address == Some(req.contract_address)
                &&& old(self).chain_id == Some(req.chain_id)
            },
            final(self).update == old(self).update,
            final(self).signature == old(self).signature,
            final(self).contract_address == old(self).contract_address,
            final(self).chain_id == old(self).chain_id,
    {
        if self.signature.is_some() {
            return Err(InputBuildError::AlreadySigned);
        }
        let update = match self.update {
            Some(u) => u,
            None => return Err(InputBuildError::UninitializedUpdate),
        };
        let contract_address = match self.contract_address {
            Some(a) => a,
            None => return Err(InputBuildError::UninitializedContractAddress),
        };
        let chain_id = match self.chain_id {
            Some(c) => c,
            None => return Err(InputBuildError::UninitializedChainId),
        };
        if update.work_log_id != signer {
            return Err(InputBuildError::SignerMismatch);
        }
        let recipient = match self.value_recipient {
            Some(v) => v,
            None => signer,
        };
        self.value_recipient = Some(recipient);
        Ok(
            SigningRequest {
                update: WorkLogUpdate::from_log_builder_journal(update, recipient),
                contract_address,
                chain_id,
            },
        )
    }

    /// The input, where every field is set; otherwise the first unset field, in the order of
    /// the input's fields.
    pub fn build(self) -> (r: Result<LogUpdaterInput, InputBuildError>)
        ensures
            self.update is None ==> r == Err::<LogUpdaterInput, InputBuildError>(
                InputBuildError::UninitializedUpdate,
            ),
            self.update is Some && self.value_recipient is None ==> r == Err::<
                LogUpdaterInput,
                InputBuildError,
            >(InputBuildError::UninitializedValueRecipient),
            self.update is Some && self.value_recipient is Some && self.signature is None ==> r
                == Err::<LogUpdaterInput, InputBuildError>(InputBuildError::UninitializedSignature),
            self.update is Some && self.value_recipient is Some && self.signature is Some
                && self.contract_address is None ==> r == Err::<LogUpdaterInput, InputBuildError>(
                InputBuildError::UninitializedContractAddress,
            ),
            self.update is Some && self.value_recipient is Some && self.signature is Some
                && self.contract_address is Some && self.chain_id is None ==> r == Err::<
                LogUpdaterInput,
                InputBuildError,
            >(InputBuildError::UninitializedChainId),
            r matches Ok(input) ==> {
                &&& self.update == Some(input.update)
                &&& self.value_recipient == Some(input.value_recipient)
                &&& self.signature matches Some(s) && s@ == input.signature@
                &&& self.contract_address == Some(input.contract_address)
                &&& self.chain_id == Some(input.chain_id)
            },
            (self.update is Some && self.value_recipient is Some && self.signature is Some
                && self.contract_address is Some && self.chain_id is Some) ==> r is Ok,
    {
        let update = match self.update {
            Some(u) => u,
            None => return Err(InputBuildError::UninitializedUpdate),
        };
        let value_recipient = match self.value_recipient {
            Some(v) => v,
            None => return Err(InputBuildError::UninitializedValueRecipient),
        };
        let signature = match self.signature {
            Some(s) => s,
            None => return Err(InputBuildError::UninitializedSignature),
        };
        let contract_address = match self.contract_address {
            Some(a) => a,
            None => return Err(InputBuildError::UninitializedContractAddress),
        };
        let chain_id = match self.chain_id {
            Some(c) => c,
            None => return Err(InputBuildError::UninitializedChainId),
        };
        Ok(LogUpdaterInput { update, value_recipient, signature, contract_address, chain_id })
    }
}

/// A builder for the log-update prover; unset fields are `None`.
pub struct LogUpdaterProverBuilder<P> {
    /// The underlying zkVM prover.
    pub prover: Option<P>,
    /// Address of the PoVW accounting contract.
    pub contract_address: Option<Address>,
    /// Address that should receive any associated PoVW rewards.
    pub value_recipient: Option<Option<Address>>,
    /// EIP-155 chain ID.
    pub chain_id: Option<u64>,
    /// Image ID of the Log Updater program.
    pub log_updater_id: Option<Digest>,
    /// Executable of the Log Updater program.
    pub log_updater_program: Option<Vec<u8>>,
}

impl<P> LogUpdaterProverBuilder<P> {
    /// A builder with no field set.
    pub fn new() -> (r: Self)
        ensures
            r.prover is None,
            r.contract_address is None,
            r.value_recipient is None,
            r.chain_id is None,
            r.log_updater_id is None,
            r.log_updater_program is None,
    {
        LogUpdaterProverBuilder {
            prover: None,
            contract_address: None,
            value_recipient: None,
            chain_id: None,
            log_updater_id: None,
            log_updater_program: None,
        }
    }

    /// Sets the underlying zkVM prover, keeping every other field.
    pub fn prover<Q>(self, prover: Q) -> (r: LogUpdaterProverBuilder<Q>)
        ensures
            r.prover == Some(prover),
            r.contract_address == self.contract_address,
            r.value_recipient == self.value_recipient,
            r.chain_id == self.chain_id,
            r.log_updater_id == self.log_updater_id,
            r.log_updater_program == self.log_updater_program,
    {
        LogUpdaterProverBuilder {
            prover: Some(prover),
            contract_address: self.contract_address,
            value_recipient: self.value_recipient,
            chain_id: self.chain_id,
            log_updater_id: self.log_updater_id,
            log_updater_program: self.log_updater_program,
        }
    }
}

/// The address that receives the value of an update: the configured recipient, else the
/// signer.
pub fn update_value_recipient(configured: Option<Address>, signer: Address) -> (r: Address)
    ensures
        r == match configured {
            Some(a) => a,
            None => signer,
        },
{
    match configured {
        Some(a) => a,
        None => signer,
    }
}

} // verus!
