use vstd::prelude::*;
use crate::account::{AccountKey, ProgramState, TokenBalance, can_move, move_tokens, require_privileged};
use crate::error::ErrorCode;

verus! {

/// The byte length of a claim signature.
pub const SIGNATURE_LEN: usize = 64;

/// The sum of a list of percentages.
pub open spec fn pct_sum(s: Seq<u8>) -> int
    decreases s.len(),
{
    if s.len() == 0 {
        0
    } else {
        pct_sum(s.drop_last()) + s.last() as int
    }
}

/// What a contributor with percentage `p` is owed of `reward`, rounded down.
pub open spec fn share_of(reward: u64, p: u8) -> int {
    (reward as int * p as int) / 100
}

/// The identities of a list of contributors, as character sequences.
pub open spec fn ids_of(v: Seq<String>) -> Seq<Seq<char>> {
    v.map_values(|s: String| s@)
}

/// `i` is the first position of `id` in `ids`.
pub open spec fn is_first_match(ids: Seq<Seq<char>>, id: Seq<char>, i: int) -> bool {
    &&& 0 <= i < ids.len()
    &&& ids[i] == id
    &&& forall|j: int| 0 <= j < i ==> ids[j] != id
}

/// The escrow record of one repository issue.
#[derive(Debug, Clone)]
pub struct Issue {
    pub reward: u64,
    pub token_mint: AccountKey,
    pub repository_name: String,
    pub issue_id: u64,
    pub is_completed: bool,
    pub contributors: Vec<String>,
    pub contributor_percentages: Vec<u8>,
}

impl Issue {
    /// The contributors' identities.
    pub open spec fn ids(&self) -> Seq<Seq<char>> {
        ids_of(self.contributors@)
    }

    /// The contributors' percentages.
    pub open spec fn pcts(&self) -> Seq<u8> {
        self.contributor_percentages@
    }

    /// The two lists stay aligned; before completion they are empty, after it
    /// the percentages add up to exactly one hundred.
    pub open spec fn wf(&self) -> bool {
        &&& self.contributors@.len() == self.contributor_percentages@.len()
        &&& self.is_completed ==> pct_sum(self.pcts()) == 100
        &&& !self.is_completed ==> self.contributors@.len() == 0
    }

    /// Whether a stored record is well formed, so that the operations on it apply.
    pub fn is_well_formed(&self) -> (r: bool)
        ensures
            r == self.wf(),
    {
        if self.contributors.len() != self.contributor_percentages.len() {
            return false;
        }
        if !self.is_completed {
            return self.contributors.len() == 0;
        }
        match total_percentage(&self.contributor_percentages) {
            Ok(t) => t == 100,
            Err(_) => false,
        }
    }
}

/// The percentage of the first contributor entry that carries `github_id`.
pub fn get_contributor_percentage(issue: &Issue, github_id: &String) -> (r: Result<u8, ErrorCode>)
    requires
        issue.contributors@.len() == issue.contributor_percentages@.len(),
    ensures
        r is Err <==> !issue.ids().contains(github_id@),
        r is Err ==> r == Err::<u8, ErrorCode>(ErrorCode::ContributorNotFound),
        r is Ok ==> exists|i: int|
            is_first_match(issue.ids(), github_id@, i) && r == Ok::<u8, ErrorCode>(issue.pcts()[i]),
{
    let mut i: usize = 0;
    while i < issue.contributors.len()
        invariant
            0 <= i <= issue.contributors@.len(),
            issue.contributors@.len() == issue.contributor_percentages@.len(),
            forall|j: int| 0 <= j < i ==> issue.ids()[j] != github_id@,
        decreases issue.contributors@.len() - i,
    {
        if issue.contributors[i] == *github_id {
            assert(is_first_match(issue.ids(), github_id@, i as int));
            return Ok(issue.contributor_percentages[i]);
        }
        i = i + 1;
    }
    assert(!issue.ids().contains(github_id@)) by {
        if issue.ids().contains(github_id@) {
            let k = choose|k: int| 0 <= k < issue.ids().len() && issue.ids()[k] == github_id@;
            assert(issue.ids()[k] != github_id@);
        }
    }
    Err(ErrorCode::ContributorNotFound)
}

/// A prefix of a list of percentages never sums to more than the whole list.
pub proof fn lemma_prefix_sum_le(s: Seq<u8>, k: int)
    requires
        0 <= k <= s.len(),
    ensures
        pct_sum(s.take(k)) <= pct_sum(s),
    decreases s.len(),
{
    if k == s.len() {
        assert(s.take(k) =~= s);
    } else {
        lemma_prefix_sum_le(s.drop_last(), k);
        assert(s.drop_last().take(k) =~= s.take(k));
    }
}

/// Extending a prefix by one element adds that element to its sum.
proof fn lemma_prefix_sum_step(s: Seq<u8>, i: int)
    requires
        0 <= i < s.len(),
    ensures
        pct_sum(s.take(i + 1)) == pct_sum(s.take(i)) + s[i] as int,
{
    assert(s.take(i + 1).drop_last() =~= s.take(i));
}

/// What completing an issue returns: the checks in the order they are made.
pub open spec fn completion_result(
    user: AccountKey,
    state: ProgramState,
    issue: Issue,
    n_ids: nat,
    pcts: Seq<u8>,
) -> Result<(), ErrorCode> {
    if user@ != state.privileged_account@ {
        Err(ErrorCode::NotPrivilegedAccount)
    } else if issue.is_completed {
        Err(ErrorCode::IssueAlreadyCompleted)
    } else if n_ids != pcts.len() {
        Err(ErrorCode::MismatchedInputs)
    } else if pct_sum(pcts) > u8::MAX {
        Err(ErrorCode::PercentageOverflow)
    } else if pct_sum(pcts) != 100 {
        Err(ErrorCode::InvalidTotalPercentage)
    } else {
        Ok(())
    }
}

/// What completing an issue reads: the caller, the configuration and the issue.
#[derive(Debug, Clone)]
pub struct CompleteIssue {
    pub user: AccountKey,
    pub state: ProgramState,
    pub issue: Issue,
}

/// Sums percentages with addition checked against the `u8` range.
fn total_percentage(percentages: &Vec<u8>) -> (r: Result<u8, ErrorCode>)
    ensures
        r is Err <==> pct_sum(percentages@) > u8::MAX,
        r is Err ==> r == Err::<u8, ErrorCode>(ErrorCode::PercentageOverflow),
        r matches Ok(t) ==> t as int == pct_sum(percentages@),
{
    let ghost s = percentages@;
    let mut total: u8 = 0;
    let mut i: usize = 0;
    while i < percentages.len()
        invariant
            0 <= i <= s.len(),
            s == percentages@,
            total as int == pct_sum(s.take(i as int)),
        decreases s.len() - i,
    {
        proof {
            lemma_prefix_sum_step(s, i as int);
        }
        match total.checked_add(percentages[i]) {
            Some(t) => {
                total = t;
            },
            None => {
                proof {
                    lemma_prefix_sum_le(s, i + 1);
                }
                return Err(ErrorCode::PercentageOverflow);
            },
        }
        i = i + 1;
    }
    assert(s.take(s.len() as int) =~= s);
    Ok(total)
}

/// Registers the contributors of an issue with their percentages and marks
/// it completed; on any error nothing changes.
pub fn register_and_complete_issue(
    ctx: &mut CompleteIssue,
    github_ids: Vec<String>,
    percentages: Vec<u8>,
) -> (r: Result<(), ErrorCode>)
    requires
        old(ctx).issue.wf(),
    ensures
        r == completion_result(
            old(ctx).user,
            old(ctx).state,
            old(ctx).issue,
            github_ids@.len(),
            percentages@,
        ),
        r is Err ==> *final(ctx) == *old(ctx),
        r is Ok ==> {
            &&& final(ctx).user == old(ctx).user
            &&& final(ctx).state == old(ctx).state
            &&& final(ctx).issue.reward == old(ctx).issue.reward
            &&& final(ctx).issue.token_mint == old(ctx).issue.token_mint
            &&& final(ctx).issue.repository_name == old(ctx).issue.repository_name
            &&& final(ctx).issue.issue_id == old(ctx).issue.issue_id
            &&& final(ctx).issue.is_completed
            &&& final(ctx).issue.contributors@ == old(ctx).issue.contributors@ + github_ids@
            &&& final(ctx).issue.contributor_percentages@
                == old(ctx).issue.contributor_percentages@ + percentages@
        },
        final(ctx).issue.wf(),
{
    if let Err(e) = require_privileged(&ctx.user, &ctx.state) {
        return Err(e);
    }
    if ctx.issue.is_completed {
        return Err(ErrorCode::IssueAlreadyCompleted);
    }
    if github_ids.len() != percentages.len() {
        return Err(ErrorCode::MismatchedInputs);
    }
    let total = match total_percentage(&percentages) {
        Ok(t) => t,
        Err(e) => return Err(e),
    };
    if total != 100 {
        return Err(ErrorCode::InvalidTotalPercentage);
    }
    let mut i: usize = 0;
    while i < github_ids.len()
        invariant
            0 <= i <= github_ids@.len(),
            github_ids@.len() == percentages@.len(),
            ctx.user == old(ctx).user,
            ctx.state == old(ctx).state,
            ctx.issue.reward == old(ctx).issue.reward,
            ctx.issue.token_mint == old(ctx).issue.token_mint,
            ctx.issue.repository_name == old(ctx).issue.repository_name,
            ctx.issue.issue_id == old(ctx).issue.issue_id,
            !ctx.issue.is_completed,
            ctx.issue.contributors@ == old(ctx).issue.contributors@ + github_ids@.take(i as int),
            ctx.issue.contributor_percentages@
                == old(ctx).issue.contributor_percentages@ + percentages@.take(i as int),
        decreases github_ids@.len() - i,
    {
        ctx.issue.contributors.push(github_ids[i].clone());
        ctx.issue.contributor_percentages.push(percentages[i]);
        assert(github_ids@.take(i + 1) =~= github_ids@.take(i as int).push(github_ids@[i as int]));
        assert(percentages@.take(i + 1) =~= percentages@.take(i as int).push(percentages@[i as int]));
        i = i + 1;
    }
    assert(github_ids@.take(i as int) =~= github_ids@);
    assert(percentages@.take(i as int) =~= percentages@);
    assert(old(ctx).issue.contributor_percentages@ + percentages@ =~= percentages@);
    ctx.issue.is_completed = true;
    Ok(())
}

/// A sum of percentages is never negative.
pub proof fn lemma_pct_sum_nonneg(s: Seq<u8>)
    ensures
        pct_sum(s) >= 0,
    decreases s.len(),
{
    if s.len() > 0 {
        lemma_pct_sum_nonneg(s.drop_last());
    }
}

/// No single percentage exceeds the sum of its list.
pub proof fn lemma_pct_le_sum(s: Seq<u8>, i: int)
    requires
        0 <= i < s.len(),
    ensures
        s[i] as int <= pct_sum(s),
{
    lemma_prefix_sum_step(s, i);
    lemma_prefix_sum_le(s, i + 1);
    lemma_pct_sum_nonneg(s.take(i));
}

/// What the contributors of a list of percentages are owed in all, each
/// share rounded down on its own.
pub open spec fn total_paid(reward: u64, pcts: Seq<u8>) -> int
    decreases pcts.len(),
{
    if pcts.len() == 0 {
        0
    } else {
        total_paid(reward, pcts.drop_last()) + share_of(reward, pcts.last())
    }
}

proof fn lemma_total_paid_scaled(reward: u64, pcts: Seq<u8>)
    ensures
        total_paid(reward, pcts) * 100 <= reward as int * pct_sum(pcts),
    decreases pcts.len(),
{
    if pcts.len() > 0 {
        let rest = pcts.drop_last();
        let p = pcts.last() as int;
        let r = reward as int;
        lemma_total_paid_scaled(reward, rest);
        assert((r * p) / 100 * 100 <= r * p) by (nonlinear_arith)
            requires
                r >= 0,
                p >= 0,
        ;
        assert(r * pct_sum(rest) + r * p == r * (pct_sum(rest) + p)) by (nonlinear_arith);
    }
}

/// Paying every registered contributor of a completed issue their share
/// never takes more than the reward out of escrow; what rounding leaves over
/// stays there.
pub proof fn lemma_payouts_within_reward(issue: Issue)
    requires
        issue.wf(),
        issue.is_completed,
    ensures
        total_paid(issue.reward, issue.pcts()) <= issue.reward,
{
    lemma_total_paid_scaled(issue.reward, issue.pcts());
}

/// A share of a valid percentage fits within the reward.
proof fn lemma_share_le_reward(reward: u64, p: u8)
    requires
        p <= 100,
    ensures
        0 <= share_of(reward, p) <= reward,
{
    let r = reward as int;
    let q = p as int;
    assert(0 <= (r * q) / 100 <= r) by (nonlinear_arith)
        requires
            r >= 0,
            0 <= q <= 100,
    ;
}

/// An issue with its privileged caller can be completed exactly when it is
/// still open, the two lists have one length, and the percentages add up to
/// one hundred.
pub proof fn lemma_completion_succeeds_iff(
    user: AccountKey,
    state: ProgramState,
    issue: Issue,
    n_ids: nat,
    pcts: Seq<u8>,
)
    requires
        user@ == state.privileged_account@,
    ensures
        completion_result(user, state, issue, n_ids, pcts) is Ok <==> {
            &&& !issue.is_completed
            &&& n_ids == pcts.len()
            &&& pct_sum(pcts) == 100
        },
{
}

/// What locking a reward reads: the payer, its token account, the escrow
/// vault, and the token being locked.
#[derive(Debug, Clone, Copy)]
pub struct LockReward {
    pub user: AccountKey,
    pub user_token: TokenBalance,
    pub vault: TokenBalance,
    pub token_mint: AccountKey,
}

/// Moves `reward` from the payer's token account into escrow and creates
/// the open issue record; if the move fails nothing changes.
pub fn lock_reward(
    ctx: &mut LockReward,
    repository_name: String,
    issue_id: u64,
    reward: u64,
) -> (r: Result<Issue, ErrorCode>)
    ensures
        r is Ok <==> can_move(old(ctx).user_token, old(ctx).vault, reward),
        r is Err ==> {
            &&& r == Err::<Issue, ErrorCode>(ErrorCode::TransferFailed)
            &&& *final(ctx) == *old(ctx)
        },
        r matches Ok(issue) ==> {
            &&& issue.reward == reward
            &&& issue.token_mint == old(ctx).token_mint
            &&& issue.repository_name@ == repository_name@
            &&& issue.issue_id == issue_id
            &&& !issue.is_completed
            &&& issue.contributors@.len() == 0
            &&& issue.contributor_percentages@.len() == 0
            &&& issue.wf()
            &&& final(ctx).user == old(ctx).user
            &&& final(ctx).token_mint == old(ctx).token_mint
            &&& final(ctx).user_token.mint == old(ctx).user_token.mint
            &&& final(ctx).vault.mint == old(ctx).vault.mint
            &&& final(ctx).user_token.amount == old(ctx).user_token.amount - reward
            &&& final(ctx).vault.amount == old(ctx).vault.amount + reward
        },
{
    if let Err(e) = move_tokens(&mut ctx.user_token, &mut ctx.vault, reward) {
        return Err(e);
    }
    Ok(Issue {
        reward,
        token_mint: ctx.token_mint,
        repository_name,
        issue_id,
        is_completed: false,
        contributors: Vec::new(),
        contributor_percentages: Vec::new(),
    })
}

/// What claiming a reward reads: the claimant and their token account, the
/// escrow vault, the issue and the configuration.
#[derive(Debug, Clone)]
pub struct ClaimReward {
    pub claimer: AccountKey,
    pub claimer_token: TokenBalance,
    pub vault: TokenBalance,
    pub issue: Issue,
    pub state: ProgramState,
}

/// Pays the contributor `github_id` of a completed issue their share of the
/// reward out of escrow, and returns the amount paid. The signature is only
/// checked for its length, and nothing records that a contributor was paid:
/// a second claim pays again while escrow holds enough. On any error nothing
/// changes.
pub fn claim_reward(
    ctx: &mut ClaimReward,
    github_id: String,
    signature: Vec<u8>,
) -> (r: Result<u64, ErrorCode>)
    requires
        old(ctx).issue.wf(),
    ensures
        final(ctx).claimer == old(ctx).claimer,
        final(ctx).issue == old(ctx).issue,
        final(ctx).state == old(ctx).state,
        final(ctx).claimer_token.mint == old(ctx).claimer_token.mint,
        final(ctx).vault.mint == old(ctx).vault.mint,
        r is Err ==> *final(ctx) == *old(ctx),
        !old(ctx).issue.is_completed ==> r == Err::<u64, ErrorCode>(ErrorCode::IssueNotCompleted),
        old(ctx).issue.is_completed && signature@.len() != SIGNATURE_LEN ==> r == Err::<
            u64,
            ErrorCode,
        >(ErrorCode::InvalidSignature),
        old(ctx).issue.is_completed && signature@.len() == SIGNATURE_LEN && !old(
            ctx,
        ).issue.ids().contains(github_id@) ==> r == Err::<u64, ErrorCode>(
            ErrorCode::ContributorNotFound,
        ),
        forall|i: int|
            old(ctx).issue.is_completed && signature@.len() == SIGNATURE_LEN
                && #[trigger] is_first_match(old(ctx).issue.ids(), github_id@, i) ==> {
                let amount = share_of(old(ctx).issue.reward, old(ctx).issue.pcts()[i]);
                &&& r is Ok <==> can_move(old(ctx).vault, old(ctx).claimer_token, amount as u64)
                &&& r is Err ==> r == Err::<u64, ErrorCode>(ErrorCode::TransferFailed)
                &&& r is Ok ==> {
                    &&& r == Ok::<u64, ErrorCode>(amount as u64)
                    &&& final(ctx).vault.amount == old(ctx).vault.amount - amount
                    &&& final(ctx).claimer_token.amount == old(ctx).claimer_token.amount + amount
                }
            },
{
    if !ctx.issue.is_completed {
        return Err(ErrorCode::IssueNotCompleted);
    }
    if signature.len() != SIGNATURE_LEN {
        return Err(ErrorCode::InvalidSignature);
    }
    let percentage = match get_contributor_percentage(&ctx.issue, &github_id) {
        Ok(p) => p,
        Err(e) => return Err(e),
    };
    let ghost k = choose|k: int|
        is_first_match(ctx.issue.ids(), github_id@, k) && percentage == ctx.issue.pcts()[k];
    proof {
        lemma_pct_le_sum(ctx.issue.pcts(), k);
        lemma_share_le_reward(ctx.issue.reward, percentage);
    }
    let reward_amount = ((ctx.issue.reward as u128) * (percentage as u128) / 100) as u64;
    if let Err(e) = move_tokens(&mut ctx.vault, &mut ctx.claimer_token, reward_amount) {
        return Err(e);
    }
    Ok(reward_amount)
}

} // verus!
