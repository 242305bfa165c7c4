use vstd::prelude::*;
use crate::error::ErrorCode;

verus! {

/// The number of bytes in an account key.
pub const KEY_LEN: usize = 32;

/// The identity of an account: its 32-byte public key.
#[derive(Debug, Clone, Copy)]
pub struct AccountKey {
    pub bytes: [u8; 32],
}

impl AccountKey {
    pub open spec fn view(&self) -> Seq<u8> {
        self.bytes@
    }

    /// Whether two keys are the same, byte for byte.
    pub fn same_as(&self, other: &AccountKey) -> (r: bool)
        ensures
            r == (self@ == other@),
    {
        let mut i: usize = 0;
        while i < KEY_LEN
            invariant
                0 <= i <= KEY_LEN,
                self@.len() == KEY_LEN,
                other@.len() == KEY_LEN,
                forall|j: int| 0 <= j < i ==> self@[j] == other@[j],
            decreases KEY_LEN - i,
        {
            if self.bytes[i] != other.bytes[i] {
                return false;
            }
            i = i + 1;
        }
        assert(self@ =~= other@);
        true
    }
}

/// The configuration created once, when the program is set up.
#[derive(Debug, Clone, Copy)]
pub struct ProgramState {
    pub owner: AccountKey,
    pub signer_address: AccountKey,
    pub privileged_account: AccountKey,
}

/// What setting up the configuration reads: the account that pays for it,
/// and the configuration record being created.
#[derive(Debug, Clone, Copy)]
pub struct Initialize {
    pub owner: AccountKey,
    pub state: ProgramState,
}

/// Records the configuration: the payer becomes the owner.
pub fn initialize(ctx: &mut Initialize, signer: AccountKey, privileged: AccountKey)
    ensures
        final(ctx).owner == old(ctx).owner,
        final(ctx).state.owner == old(ctx).owner,
        final(ctx).state.signer_address == signer,
        final(ctx).state.privileged_account == privileged,
{
    ctx.state = ProgramState {
        owner: ctx.owner,
        signer_address: signer,
        privileged_account: privileged,
    };
}

/// Lets only the privileged account of the configuration through.
pub fn require_privileged(caller: &AccountKey, state: &ProgramState) -> (r: Result<(), ErrorCode>)
    ensures
        r is Ok <==> caller@ == state.privileged_account@,
        r is Err ==> r == Err::<(), ErrorCode>(ErrorCode::NotPrivilegedAccount),
{
    if caller.same_as(&state.privileged_account) {
        Ok(())
    } else {
        Err(ErrorCode::NotPrivilegedAccount)
    }
}

/// A token account as the ledger sees it: which token it holds, and how much.
#[derive(Debug, Clone, Copy)]
pub struct TokenBalance {
    pub mint: AccountKey,
    pub amount: u64,
}

/// Whether the ledger can move `amount` from `from` to `to`: both hold the
/// same token, the source holds enough, and the destination cannot overflow.
pub open spec fn can_move(from: TokenBalance, to: TokenBalance, amount: u64) -> bool {
    &&& from.mint@ == to.mint@
    &&& amount <= from.amount
    &&& to.amount + amount <= u64::MAX
}

/// Moves `amount` tokens from `from` to `to`, all or nothing.
pub fn move_tokens(from: &mut TokenBalance, to: &mut TokenBalance, amount: u64) -> (r: Result<(), ErrorCode>)
    ensures
        r is Ok <==> can_move(*old(from), *old(to), amount),
        r is Ok ==> {
            &&& final(from).mint == old(from).mint
            &&& final(to).mint == old(to).mint
            &&& final(from).amount == old(from).amount - amount
            &&& final(to).amount == old(to).amount + amount
        },
        r is Err ==> {
            &&& r == Err::<(), ErrorCode>(ErrorCode::TransferFailed)
            &&& *final(from) == *old(from)
            &&& *final(to) == *old(to)
        },
{
    if !from.mint.same_as(&to.mint) || amount > from.amount || amount > u64::MAX - to.amount {
        return Err(ErrorCode::TransferFailed);
    }
    from.amount = from.amount - amount;
    to.amount = to.amount + amount;
    Ok(())
}

} // verus!
