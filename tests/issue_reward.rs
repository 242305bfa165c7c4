use github_issue_reward::{
    claim_reward, get_contributor_percentage, initialize, lock_reward, move_tokens,
    register_and_complete_issue, require_privileged, AccountKey, ClaimReward, CompleteIssue,
    ErrorCode, Initialize, Issue, LockReward, ProgramState, TokenBalance,
};

fn key(b: u8) -> AccountKey {
    AccountKey { bytes: [b; 32] }
}

fn config() -> ProgramState {
    ProgramState { owner: key(1), signer_address: key(2), privileged_account: key(3) }
}

fn balance(amount: u64) -> TokenBalance {
    TokenBalance { mint: key(9), amount }
}

fn open_issue(reward: u64) -> Issue {
    Issue {
        reward,
        token_mint: key(9),
        repository_name: "repo".to_string(),
        issue_id: 7,
        is_completed: false,
        contributors: Vec::new(),
        contributor_percentages: Vec::new(),
    }
}

fn ids(names: &[&str]) -> Vec<String> {
    names.iter().map(|s| s.to_string()).collect()
}

fn completed_issue(reward: u64, names: &[&str], pcts: &[u8]) -> Issue {
    let mut ctx = CompleteIssue { user: key(3), state: config(), issue: open_issue(reward) };
    register_and_complete_issue(&mut ctx, ids(names), pcts.to_vec()).unwrap();
    ctx.issue
}

fn claim_ctx(issue: Issue, vault: u64) -> ClaimReward {
    ClaimReward {
        claimer: key(5),
        claimer_token: balance(0),
        vault: balance(vault),
        issue,
        state: config(),
    }
}

fn sig() -> Vec<u8> {
    vec![0u8; 64]
}

#[test]
fn keys_compare_by_bytes() {
    let mut other = key(4);
    assert!(key(4).same_as(&other));
    other.bytes[31] = 5;
    assert!(!key(4).same_as(&other));
}

#[test]
fn initialize_records_configuration() {
    let mut ctx = Initialize {
        owner: key(1),
        state: ProgramState { owner: key(0), signer_address: key(0), privileged_account: key(0) },
    };
    initialize(&mut ctx, key(2), key(3));
    assert_eq!(ctx.state.owner.bytes, key(1).bytes);
    assert_eq!(ctx.state.signer_address.bytes, key(2).bytes);
    assert_eq!(ctx.state.privileged_account.bytes, key(3).bytes);
}

#[test]
fn guard_admits_only_privileged_account() {
    assert_eq!(require_privileged(&key(3), &config()), Ok(()));
    assert_eq!(require_privileged(&key(1), &config()), Err(ErrorCode::NotPrivilegedAccount));
}

#[test]
fn move_tokens_moves_exact_amount() {
    let (mut a, mut b) = (balance(50), balance(5));
    assert_eq!(move_tokens(&mut a, &mut b, 20), Ok(()));
    assert_eq!((a.amount, b.amount), (30, 25));
}

#[test]
fn move_tokens_refuses_short_source() {
    let (mut a, mut b) = (balance(10), balance(5));
    assert_eq!(move_tokens(&mut a, &mut b, 11), Err(ErrorCode::TransferFailed));
    assert_eq!((a.amount, b.amount), (10, 5));
}

#[test]
fn move_tokens_refuses_other_token_or_overflow() {
    let mut a = balance(10);
    let mut other = TokenBalance { mint: key(8), amount: 0 };
    assert_eq!(move_tokens(&mut a, &mut other, 1), Err(ErrorCode::TransferFailed));
    let mut full = balance(u64::MAX);
    assert_eq!(move_tokens(&mut a, &mut full, 1), Err(ErrorCode::TransferFailed));
    assert_eq!((a.amount, full.amount), (10, u64::MAX));
}

#[test]
fn lock_moves_reward_into_escrow() {
    let mut ctx =
        LockReward { user: key(4), user_token: balance(500), vault: balance(0), token_mint: key(9) };
    let issue = lock_reward(&mut ctx, "repo".to_string(), 42, 100).unwrap();
    assert_eq!(ctx.user_token.amount, 400);
    assert_eq!(ctx.vault.amount, 100);
    assert_eq!(issue.reward, 100);
    assert_eq!(issue.issue_id, 42);
    assert_eq!(issue.repository_name, "repo");
    assert_eq!(issue.token_mint.bytes, key(9).bytes);
    assert!(!issue.is_completed);
    assert!(issue.contributors.is_empty());
    assert!(issue.contributor_percentages.is_empty());
}

#[test]
fn lock_without_funds_fails_and_moves_nothing() {
    let mut ctx =
        LockReward { user: key(4), user_token: balance(50), vault: balance(7), token_mint: key(9) };
    let r = lock_reward(&mut ctx, "repo".to_string(), 42, 100);
    assert_eq!(r.unwrap_err(), ErrorCode::TransferFailed);
    assert_eq!((ctx.user_token.amount, ctx.vault.amount), (50, 7));
}

#[test]
fn completion_registers_contributors() {
    let issue = completed_issue(100, &["alice", "bob"], &[60, 40]);
    assert!(issue.is_completed);
    assert_eq!(issue.contributors, ids(&["alice", "bob"]));
    assert_eq!(issue.contributor_percentages, vec![60, 40]);
}

#[test]
fn completion_with_total_over_hundred_fails() {
    let mut ctx = CompleteIssue { user: key(3), state: config(), issue: open_issue(100) };
    let r = register_and_complete_issue(&mut ctx, ids(&["alice", "bob"]), vec![50, 60]);
    assert_eq!(r, Err(ErrorCode::InvalidTotalPercentage));
    assert!(!ctx.issue.is_completed);
    assert!(ctx.issue.contributors.is_empty());
    assert!(ctx.issue.contributor_percentages.is_empty());
}

#[test]
fn completion_with_mismatched_lengths_fails() {
    let mut ctx = CompleteIssue { user: key(3), state: config(), issue: open_issue(100) };
    let r = register_and_complete_issue(&mut ctx, ids(&["alice", "bob"]), vec![100]);
    assert_eq!(r, Err(ErrorCode::MismatchedInputs));
    assert!(!ctx.issue.is_completed);
    assert!(ctx.issue.contributors.is_empty());
    assert!(ctx.issue.contributor_percentages.is_empty());
}

#[test]
fn completion_with_overflowing_total_fails() {
    let mut ctx = CompleteIssue { user: key(3), state: config(), issue: open_issue(100) };
    let r = register_and_complete_issue(&mut ctx, ids(&["a", "b", "c"]), vec![200, 100, 0]);
    assert_eq!(r, Err(ErrorCode::PercentageOverflow));
    assert!(ctx.issue.contributors.is_empty());
}

#[test]
fn completion_with_no_contributors_fails() {
    let mut ctx = CompleteIssue { user: key(3), state: config(), issue: open_issue(100) };
    let r = register_and_complete_issue(&mut ctx, Vec::new(), Vec::new());
    assert_eq!(r, Err(ErrorCode::InvalidTotalPercentage));
    assert!(!ctx.issue.is_completed);
}

#[test]
fn completion_by_other_account_fails() {
    let mut ctx = CompleteIssue { user: key(1), state: config(), issue: open_issue(100) };
    let r = register_and_complete_issue(&mut ctx, ids(&["alice"]), vec![100]);
    assert_eq!(r, Err(ErrorCode::NotPrivilegedAccount));
    assert!(!ctx.issue.is_completed);
}

#[test]
fn second_completion_fails() {
    let issue = completed_issue(100, &["alice"], &[100]);
    let mut ctx = CompleteIssue { user: key(3), state: config(), issue };
    let r = register_and_complete_issue(&mut ctx, ids(&["bob"]), vec![100]);
    assert_eq!(r, Err(ErrorCode::IssueAlreadyCompleted));
    assert_eq!(ctx.issue.contributors, ids(&["alice"]));
}

#[test]
fn claims_split_reward_sixty_forty() {
    let issue = completed_issue(100, &["alice", "bob"], &[60, 40]);
    let mut ctx = claim_ctx(issue, 100);
    assert_eq!(claim_reward(&mut ctx, "alice".to_string(), sig()), Ok(60));
    assert_eq!(claim_reward(&mut ctx, "bob".to_string(), sig()), Ok(40));
    assert_eq!(ctx.claimer_token.amount, 100);
    assert_eq!(ctx.vault.amount, 0);
}

#[test]
fn claims_round_down_and_leave_dust() {
    let issue = completed_issue(10, &["a", "b", "c"], &[33, 33, 34]);
    let mut ctx = claim_ctx(issue, 10);
    let paid: Vec<u64> = ["a", "b", "c"]
        .iter()
        .map(|n| claim_reward(&mut ctx, n.to_string(), sig()).unwrap())
        .collect();
    assert_eq!(paid, vec![3, 3, 3]);
    assert_eq!(paid.iter().sum::<u64>(), 9);
    assert_eq!(ctx.vault.amount, 1);
}

#[test]
fn claim_by_unregistered_identity_fails() {
    let issue = completed_issue(100, &["alice", "bob"], &[60, 40]);
    let mut ctx = claim_ctx(issue, 100);
    assert_eq!(claim_reward(&mut ctx, "carol".to_string(), sig()), Err(ErrorCode::ContributorNotFound));
    assert_eq!((ctx.vault.amount, ctx.claimer_token.amount), (100, 0));
}

#[test]
fn claim_before_completion_fails() {
    let mut ctx = claim_ctx(open_issue(100), 100);
    assert_eq!(claim_reward(&mut ctx, "alice".to_string(), sig()), Err(ErrorCode::IssueNotCompleted));
    assert_eq!((ctx.vault.amount, ctx.claimer_token.amount), (100, 0));
}

#[test]
fn claim_with_short_signature_fails() {
    let issue = completed_issue(100, &["alice"], &[100]);
    let mut ctx = claim_ctx(issue, 100);
    assert_eq!(claim_reward(&mut ctx, "alice".to_string(), vec![0u8; 63]), Err(ErrorCode::InvalidSignature));
    assert_eq!(ctx.vault.amount, 100);
}

#[test]
fn claim_beyond_escrow_fails() {
    let issue = completed_issue(100, &["alice"], &[100]);
    let mut ctx = claim_ctx(issue, 100);
    assert_eq!(claim_reward(&mut ctx, "alice".to_string(), sig()), Ok(100));
    assert_eq!(claim_reward(&mut ctx, "alice".to_string(), sig()), Err(ErrorCode::TransferFailed));
    assert_eq!((ctx.vault.amount, ctx.claimer_token.amount), (0, 100));
}

#[test]
fn claim_of_largest_reward_does_not_overflow() {
    let issue = completed_issue(u64::MAX, &["a", "b"], &[99, 1]);
    let mut ctx = claim_ctx(issue, u64::MAX);
    assert_eq!(claim_reward(&mut ctx, "a".to_string(), sig()), Ok(((u64::MAX as u128) * 99 / 100) as u64));
}

#[test]
fn duplicate_identity_finds_first_entry() {
    let issue = completed_issue(100, &["alice", "alice"], &[30, 70]);
    assert_eq!(get_contributor_percentage(&issue, &"alice".to_string()), Ok(30));
    assert_eq!(get_contributor_percentage(&issue, &"bob".to_string()), Err(ErrorCode::ContributorNotFound));
}

#[test]
fn well_formedness_of_records() {
    assert!(open_issue(100).is_well_formed());
    assert!(completed_issue(100, &["alice", "bob"], &[60, 40]).is_well_formed());
    let mut bad = completed_issue(100, &["alice", "bob"], &[60, 40]);
    bad.contributor_percentages[1] = 41;
    assert!(!bad.is_well_formed());
    bad.contributor_percentages.pop();
    assert!(!bad.is_well_formed());
    let mut open_with_entries = open_issue(100);
    open_with_entries.contributors.push("alice".to_string());
    open_with_entries.contributor_percentages.push(100);
    assert!(!open_with_entries.is_well_formed());
}
