use vstd::prelude::*;
use crate::canonical::canonical_encoding;
use crate::state::AddressInfo;

verus! {

/// What the runtime shows of one account handed to the operation.
#[derive(Clone, Copy, Debug, PartialEq, Eq)]
pub struct AccountHandle {
    pub key: [u8; 32],
    pub is_signer: bool,
    pub is_writable: bool,
}

/// Why creating an address account is refused.
#[derive(Clone, Copy, Debug, PartialEq, Eq, Structural)]
pub enum ProvisionError {
    /// The instruction bytes are not one canonically encoded address.
    InvalidInstructionData,
    /// Fewer than three accounts were passed.
    MissingAccount,
    /// A text field of the address is too long to encode.
    Serialization,
    /// The payer did not sign.
    MissingRequiredSignature,
    /// The payer or the new account is not writable.
    InvalidAccountData,
    /// The third account is not the system program.
    IncorrectProgramId,
}

/// The system call that creates the new account: `lamports` move from `from` to the
/// new account `to`, which gets `space` zeroed bytes and `owner` as its owner.
#[derive(Clone, Copy, Debug, PartialEq, Eq)]
pub struct CreateAccount {
    pub from: [u8; 32],
    pub to: [u8; 32],
    pub lamports: u64,
    pub space: u64,
    pub owner: [u8; 32],
}

/// The account to create and the bytes to write into it once it exists.
pub struct Provision {
    pub create: CreateAccount,
    pub payload: Vec<u8>,
}

/// The address of the system program: 32 zero bytes.
pub open spec fn system_program_key() -> Seq<u8> {
    Seq::new(32, |i: int| 0u8)
}

/// The checks on the payer, the new account and the system program, in order.
pub open spec fn check_outcome(
    payer: AccountHandle,
    target: AccountHandle,
    system: AccountHandle,
) -> Result<(), ProvisionError> {
    if !payer.is_signer {
        Err(ProvisionError::MissingRequiredSignature)
    } else if !target.is_writable || !payer.is_writable {
        Err(ProvisionError::InvalidAccountData)
    } else if system.key@ != system_program_key() {
        Err(ProvisionError::IncorrectProgramId)
    } else {
        Ok(())
    }
}

/// Relies on `solana_program::system_program::ID`: the system program's address, the
/// key written "11111111111111111111111111111111" in base58, which is 32 zero bytes.
#[verifier::external_body]
#[allow(deprecated)]
fn system_program_id() -> (r: [u8; 32])
    ensures
        r@ == system_program_key(),
{
    solana_program::system_program::ID.to_bytes()
}

fn keys_equal(a: &[u8; 32], b: &[u8; 32]) -> (r: bool)
    ensures
        r == (a@ == b@),
{
    let mut i: usize = 0;
    while i < 32
        invariant
            0 <= i <= 32,
            forall|j: int| 0 <= j < i ==> a@[j] == b@[j],
        decreases 32 - i,
    {
        if a[i] != b[i] {
            return false;
        }
        i = i + 1;
    }
    assert(a@ =~= b@);
    true
}

/// Checks that the payer signed, that the payer and the new account are writable, and
/// that the third account is the system program, reporting the first check that fails.
pub fn validate_accounts(
    payer: &AccountHandle,
    target: &AccountHandle,
    system: &AccountHandle,
) -> (r: Result<(), ProvisionError>)
    ensures
        r == check_outcome(*payer, *target, *system),
{
    if !payer.is_signer {
        return Err(ProvisionError::MissingRequiredSignature);
    }
    if !target.is_writable || !payer.is_writable {
        return Err(ProvisionError::InvalidAccountData);
    }
    let system_key = system_program_id();
    if !keys_equal(&system.key, &system_key) {
        return Err(ProvisionError::IncorrectProgramId);
    }
    Ok(())
}

/// Decodes the instruction bytes, which must hold exactly one canonically encoded address.
pub fn decode_instruction(data: &[u8]) -> (r: Result<AddressInfo, ProvisionError>)
    ensures
        r matches Ok(v) ==> crate::state::parse_address(data@) == Ok::<_, crate::state::CodecError>(
            (v@, data@.len() as int),
        ),
        r is Err <==> !(crate::state::parse_address(data@) matches Ok((_, n)) && n == data@.len()),
        r matches Err(e) ==> e == ProvisionError::InvalidInstructionData,
{
    match AddressInfo::try_from_slice(data) {
        Ok(v) => Ok(v),
        Err(_) => Err(ProvisionError::InvalidInstructionData),
    }
}

/// The first step of creating an address account: it takes the three accounts by
/// position and encodes the address. The length of the result is the size of the new
/// account, from which the caller learns the balance that the account needs.
pub fn prepare_initialize(accounts: &[AccountHandle], address_info: &AddressInfo) -> (r: Result<
    Vec<u8>,
    ProvisionError,
>)
    ensures
        accounts@.len() < 3 ==> r == Err::<Vec<u8>, ProvisionError>(ProvisionError::MissingAccount),
        accounts@.len() >= 3 && !address_info@.wf() ==> r == Err::<Vec<u8>, ProvisionError>(
            ProvisionError::Serialization,
        ),
        accounts@.len() >= 3 && address_info@.wf() ==> (r matches Ok(p) && p@ == canonical_encoding(
            address_info@,
        )),
{
    if accounts.len() < 3 {
        return Err(ProvisionError::MissingAccount);
    }
    match address_info.try_to_vec() {
        Ok(v) => Ok(v),
        Err(_) => Err(ProvisionError::Serialization),
    }
}

/// The second step: given the encoded address and the balance the runtime requires for
/// an account of its size, it checks the accounts and describes the account to create,
/// sized to the encoding exactly, and the bytes to write into it.
pub fn authorize_initialize(
    program_id: &[u8; 32],
    accounts: &[AccountHandle],
    payload: Vec<u8>,
    lamports_required: u64,
) -> (r: Result<Provision, ProvisionError>)
    ensures
        accounts@.len() < 3 ==> (r matches Err(e) && e == ProvisionError::MissingAccount),
        accounts@.len() >= 3 ==> match check_outcome(accounts@[0], accounts@[1], accounts@[2]) {
            Err(e) => (r matches Err(f) && f == e),
            Ok(_) => (r matches Ok(p) && {
                &&& p.payload@ == payload@
                &&& p.create.space == payload@.len()
                &&& p.create.lamports == lamports_required
                &&& p.create.from == accounts@[0].key
                &&& p.create.to == accounts@[1].key
                &&& p.create.owner == *program_id
            }),
        },
{
    if accounts.len() < 3 {
        return Err(ProvisionError::MissingAccount);
    }
    let payer = &accounts[0];
    let target = &accounts[1];
    let system = &accounts[2];
    match validate_accounts(payer, target, system) {
        Ok(()) => {},
        Err(e) => return Err(e),
    }
    let create = CreateAccount {
        from: payer.key,
        to: target.key,
        lamports: lamports_required,
        space: payload.len() as u64,
        owner: *program_id,
    };
    Ok(Provision { create, payload })
}

} // verus!
