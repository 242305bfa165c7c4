//! An escrow-and-payout ledger for issue rewards: a reward is locked in
//! escrow, a privileged account registers the contributors and their
//! percentage shares, and each contributor then claims their share.

mod account;
mod error;
mod issue;


pub use account::{AccountKey, ProgramState, TokenBalance, Initialize, initialize, require_privileged, move_tokens, can_move, KEY_LEN};
pub use error::ErrorCode;
pub use issue::{Issue, get_contributor_percentage, pct_sum, share_of, ids_of, is_first_match, SIGNATURE_LEN, CompleteIssue, register_and_complete_issue, completion_result, lemma_prefix_sum_le, lemma_pct_sum_nonneg, lemma_pct_le_sum, total_paid, lemma_payouts_within_reward, lemma_completion_succeeds_iff, LockReward, lock_reward, ClaimReward, claim_reward};
