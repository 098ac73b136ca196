//! The reward accounts of the nodes of a section, from the day a node joins to the day
//! its counter is handed to the section it has moved to.

use crate::farming::{
    account_index, after_add_account, after_claim, after_reward, counter_of, distinct_accounts,
    has_account, lemma_account_at, lemma_added_account_starts_from_work, lemma_claim_keeps_others,
    lemma_claim_once, lemma_reward_never_lowers_work, rewarded_after, AccountId, Accounts,
    FarmingSystem, RewardCounter,
};
use crate::messaging::{
    Aggregation, DstLocation, ErrorMessage, Message, MessageId, NetworkCmd, NetworkCmdError,
    NetworkEvent, NetworkRewardCmd, NetworkRewardError, SrcLocation,
};
use crate::name::{name_of_content, XorName};
use crate::name_map::NameMap;
use crate::node::{dst_of, get_dst_from_src};
use crate::node_ops::{NodeDuties, NodeDuty, NodeOperation, OutgoingMsg, RewardDuty};
use crate::section_funds::payouts::{
    after_failure, after_initiate, after_success, failure_duties, initiate_duty, success_duty,
    PendingPayout, SectionFunds,
};
use crate::token::Token;
use vstd::prelude::*;

verus! {

broadcast use {crate::token::lemma_token_nanos, crate::token::lemma_token_of_nanos};

/// What storing a byte costs, in nanos.
pub const BASE_COST: u64 = 1;

/// The factor by which the cost of stored data is scaled to give its reward.
pub const REWARD_FACTOR: u64 = 2;

/// The stage that the reward account of a node is in.
#[derive(Clone, Copy, Debug, PartialEq, Eq)]
pub enum RewardAccount {
    /// The node has moved here, and its counter has not arrived from its old section yet.
    AwaitingStart,
    /// The node is here, and its work and rewards are counted.
    Active(AccountId),
    /// The node has left, and its counter waits to be claimed by its new section.
    AwaitingMove(AccountId),
}

/// The stage of the account of `node`, if it has one.
pub open spec fn stage_of(accounts: Map<XorName, RewardAccount>, node: XorName) -> Option<
    RewardAccount,
> {
    if accounts.contains_key(node) {
        Some(accounts[node])
    } else {
        None
    }
}

/// Whether the account of a node may go from `before` to `after` in one step: an account
/// starts as active, or as awaiting its start and then becomes active; an active account
/// comes to await its move, with the same id; and an account that awaits its move is
/// taken away. An account may also stay as it is.
pub open spec fn permitted(before: Option<RewardAccount>, after: Option<RewardAccount>) -> bool {
    ||| before == after
    ||| before is None && after matches Some(RewardAccount::Active(_))
    ||| before is None && after == Some(RewardAccount::AwaitingStart)
    ||| before == Some(RewardAccount::AwaitingStart) && after matches Some(RewardAccount::Active(_))
    ||| before matches Some(RewardAccount::Active(a)) && after == Some(
        RewardAccount::AwaitingMove(a),
    )
    ||| before matches Some(RewardAccount::AwaitingMove(_)) && after is None
}

/// The message that claims the counter of the node that was `old_node_id` and is
/// `new_node_id` now, sent under the id `id` to the section of the old name.
pub open spec fn claim_cmd(
    old_node_id: XorName,
    new_node_id: XorName,
    id: MessageId,
) -> NodeOperation {
    NodeOperation::RunAsNode(
        NodeDuty::Send(
            OutgoingMsg {
                msg: Message::NetworkCmd {
                    cmd: NetworkCmd::Rewards(
                        NetworkRewardCmd::ClaimRewardCounter { old_node_id, new_node_id },
                    ),
                    id,
                },
                section_source: true,
                dst: DstLocation::Section(old_node_id),
                aggregation: Aggregation::AtDestination,
            },
        ),
    )
}

/// The message that hands the counter of the account `account_id` to the section that
/// claimed it for the node `new_node_id`, sent under the id `id` in answer to the claim
/// `correlation_id` from `origin`.
pub open spec fn claimed_event(
    new_node_id: XorName,
    account_id: AccountId,
    counter: RewardCounter,
    id: MessageId,
    correlation_id: MessageId,
    origin: SrcLocation,
) -> NodeOperation {
    NodeOperation::RunAsNode(
        NodeDuty::Send(
            OutgoingMsg {
                msg: Message::NetworkEvent {
                    event: NetworkEvent::RewardCounterClaimed { new_node_id, account_id, counter },
                    id,
                    correlation_id,
                },
                section_source: true,
                dst: dst_of(origin),
                aggregation: Aggregation::AtDestination,
            },
        ),
    )
}

/// The message that refuses the claim `correlation_id` from `origin` for the account
/// `account_id` with the error `error`, sent under the id `id`.
pub open spec fn claim_error(
    error: ErrorMessage,
    account_id: AccountId,
    id: MessageId,
    correlation_id: MessageId,
    origin: SrcLocation,
) -> NodeOperation {
    NodeOperation::RunAsNode(
        NodeDuty::Send(
            OutgoingMsg {
                msg: Message::NetworkCmdError {
                    error: NetworkCmdError::Rewards(
                        NetworkRewardError::RewardClaiming { error, account_id },
                    ),
                    id,
                    correlation_id,
                },
                section_source: true,
                dst: dst_of(origin),
                aggregation: Aggregation::AtDestination,
            },
        ),
    )
}

/// The id of the message that `operation` sends.
pub open spec fn sent_id(operation: NodeOperation) -> MessageId {
    match operation {
        NodeOperation::RunAsNode(NodeDuty::Send(out)) => out.msg.id(),
        _ => arbitrary(),
    }
}

/// Whether the counter that arrives for `node` is taken in: the node awaits its start,
/// and the account `id` is not counted here yet.
pub open spec fn takes_counter(
    accounts: Map<XorName, RewardAccount>,
    farming: Accounts,
    id: AccountId,
    node: XorName,
) -> bool {
    stage_of(accounts, node) == Some(RewardAccount::AwaitingStart) && !has_account(farming, id)
}

/// The name under which data is rewarded: the name of its content.
pub open spec fn data_name(data: Seq<u8>) -> XorName {
    name_of_content(data)
}

/// The stages of the accounts after `duty` was done.
pub open spec fn accounts_after(
    accounts: Map<XorName, RewardAccount>,
    farming: Accounts,
    duty: RewardDuty,
) -> Map<XorName, RewardAccount> {
    match duty {
        RewardDuty::AccumulateReward { .. } => accounts,
        RewardDuty::AddNewAccount { id, node_id } => if accounts.contains_key(node_id) {
            accounts
        } else {
            accounts.insert(node_id, RewardAccount::Active(id))
        },
        RewardDuty::AddRelocatedAccount { new_node_id, .. } => if accounts.contains_key(
            new_node_id,
        ) {
            accounts
        } else {
            accounts.insert(new_node_id, RewardAccount::AwaitingStart)
        },
        RewardDuty::ClaimRewardCounter { old_node_id, .. } => match stage_of(
            accounts,
            old_node_id,
        ) {
            Some(RewardAccount::AwaitingMove(id)) => if has_account(farming, id) {
                accounts.remove(old_node_id)
            } else {
                accounts
            },
            _ => accounts,
        },
        RewardDuty::ReceiveClaimedRewards { id, node_id, .. } => if takes_counter(
            accounts,
            farming,
            id,
            node_id,
        ) {
            accounts.insert(node_id, RewardAccount::Active(id))
        } else {
            accounts
        },
        RewardDuty::PrepareAccountMove { node_id } => match stage_of(accounts, node_id) {
            Some(RewardAccount::Active(id)) => accounts.insert(
                node_id,
                RewardAccount::AwaitingMove(id),
            ),
            _ => accounts,
        },
    }
}

/// The counters of the farming system after `duty` was done.
pub open spec fn farming_after(
    base_cost: Token,
    accounts: Map<XorName, RewardAccount>,
    farming: Accounts,
    rewarded: Set<XorName>,
    duty: RewardDuty,
) -> Accounts {
    match duty {
        RewardDuty::AccumulateReward { data } => after_reward(
            base_cost,
            farming,
            rewarded,
            data_name(data@),
            data@.len() as u64,
            REWARD_FACTOR,
        ),
        RewardDuty::ClaimRewardCounter { old_node_id, .. } => match stage_of(
            accounts,
            old_node_id,
        ) {
            Some(RewardAccount::AwaitingMove(id)) => after_claim(farming, id),
            _ => farming,
        },
        RewardDuty::ReceiveClaimedRewards { id, node_id, counter } => if takes_counter(
            accounts,
            farming,
            id,
            node_id,
        ) {
            after_add_account(farming, id, counter.work)
        } else {
            farming
        },
        _ => farming,
    }
}

/// The data that has been rewarded, after `duty` was done.
pub open spec fn rewarded_data_after(
    base_cost: Token,
    farming: Accounts,
    rewarded: Set<XorName>,
    duty: RewardDuty,
) -> Set<XorName> {
    match duty {
        RewardDuty::AccumulateReward { data } => rewarded_after(
            base_cost,
            farming,
            rewarded,
            data_name(data@),
            data@.len() as u64,
            REWARD_FACTOR,
        ),
        _ => rewarded,
    }
}

/// The payouts under way after `duty` was done: a counter that is taken in with a reward
/// has the reward paid out.
pub open spec fn pending_after(
    accounts: Map<XorName, RewardAccount>,
    farming: Accounts,
    pending: Seq<PendingPayout>,
    duty: RewardDuty,
) -> Seq<PendingPayout> {
    match duty {
        RewardDuty::ReceiveClaimedRewards { id, node_id, counter } => if takes_counter(
            accounts,
            farming,
            id,
            node_id,
        ) && counter.reward@ > 0 {
            after_initiate(pending, counter.reward, id)
        } else {
            pending
        },
        _ => pending,
    }
}

/// What the node is to do once `duty` was done, where a message that it sends gets the id
/// `id`.
pub open spec fn operation_after(
    accounts: Map<XorName, RewardAccount>,
    farming: Accounts,
    pending: Seq<PendingPayout>,
    duty: RewardDuty,
    id: MessageId,
) -> Option<NodeOperation> {
    match duty {
        RewardDuty::AccumulateReward { .. } => None,
        RewardDuty::AddNewAccount { .. } => None,
        RewardDuty::AddRelocatedAccount { old_node_id, new_node_id } => if accounts.contains_key(
            new_node_id,
        ) {
            None
        } else {
            Some(claim_cmd(old_node_id, new_node_id, id))
        },
        RewardDuty::ClaimRewardCounter {
            old_node_id,
            new_node_id,
            msg_id,
            origin,
        } => match stage_of(accounts, old_node_id) {
            Some(RewardAccount::AwaitingMove(account)) => if has_account(farming, account) {
                Some(
                    claimed_event(
                        new_node_id,
                        account,
                        counter_of(farming, account),
                        id,
                        msg_id,
                        origin,
                    ),
                )
            } else {
                Some(claim_error(ErrorMessage::NoSuchAccount, account, id, msg_id, origin))
            },
            Some(RewardAccount::Active(account)) => Some(
                claim_error(ErrorMessage::InvalidClaim, account, id, msg_id, origin),
            ),
            _ => None,
        },
        RewardDuty::ReceiveClaimedRewards { id: account, node_id, counter } => if takes_counter(
            accounts,
            farming,
            account,
            node_id,
        ) && counter.reward@ > 0 {
            match initiate_duty(pending, counter.reward, account) {
                Some(payout) => Some(NodeOperation::RunAsNode(payout)),
                None => None,
            }
        } else {
            None
        },
        RewardDuty::PrepareAccountMove { .. } => None,
    }
}

/// The keeper of the reward accounts of a section.
#[derive(Debug)]
pub struct Rewards {
    farming: FarmingSystem,
    node_accounts: NameMap<RewardAccount>,
    section_funds: SectionFunds,
}

/// Whether the keeper `is` and the operation `operation` are what comes of the keeper
/// `was` doing `duty`, where a message that is sent gets the id `id`: the accounts, the
/// counters, the data that has been rewarded and the payouts under way are as the duty
/// leaves them, and the cost of a byte is as it was.
pub open spec fn is_step(
    was: Rewards,
    is: Rewards,
    duty: RewardDuty,
    id: MessageId,
    operation: Option<NodeOperation>,
) -> bool {
    &&& is.base_cost() == was.base_cost()
    &&& is.accounts() == accounts_after(was.accounts(), was.farming(), duty)
    &&& is.farming() == farming_after(
        was.base_cost(),
        was.accounts(),
        was.farming(),
        was.rewarded(),
        duty,
    )
    &&& is.rewarded() == rewarded_data_after(was.base_cost(), was.farming(), was.rewarded(), duty)
    &&& is.pending() == pending_after(was.accounts(), was.farming(), was.pending(), duty)
    &&& operation == operation_after(was.accounts(), was.farming(), was.pending(), duty, id)
}

impl Rewards {
    /// The stage of the account of every node that has one.
    pub closed spec fn accounts(&self) -> Map<XorName, RewardAccount> {
        self.node_accounts@
    }

    /// The counters of the farming system.
    pub closed spec fn farming(&self) -> Accounts {
        self.farming.accounts()
    }

    /// The names of the data that has been rewarded.
    pub closed spec fn rewarded(&self) -> Set<XorName> {
        self.farming.rewarded()
    }

    /// The payouts that are under way.
    pub closed spec fn pending(&self) -> Seq<PendingPayout> {
        self.section_funds.pending()
    }

    /// What storing a byte costs.
    pub closed spec fn base_cost(&self) -> Token {
        self.farming.base_cost()
    }

    /// A keeper without accounts.
    pub fn new() -> (rewards: Rewards)
        ensures
            rewards.base_cost() == Token::from_nano(BASE_COST),
            rewards.accounts() == Map::<XorName, RewardAccount>::empty(),
            rewards.farming() == Seq::<(AccountId, RewardCounter)>::empty(),
            rewards.rewarded() == Set::<XorName>::empty(),
            rewards.pending() == Seq::<PendingPayout>::empty(),
    {
        Rewards {
            farming: FarmingSystem::new(Token::from_nano(BASE_COST)),
            node_accounts: NameMap::new(),
            section_funds: SectionFunds::new(),
        }
    }

    /// The stage of the account of the node `node_id`, if it has one.
    pub fn account(&self, node_id: &XorName) -> (stage: Option<RewardAccount>)
        ensures
            stage == stage_of(self.accounts(), *node_id),
    {
        match self.node_accounts.get(node_id) {
            Some(account) => Some(*account),
            None => None,
        }
    }

    /// The counter of the account `id`, if it is counted here.
    pub fn counter(&self, id: &AccountId) -> (counter: Option<RewardCounter>)
        ensures
            counter == if has_account(self.farming(), *id) {
                Some(counter_of(self.farming(), *id))
            } else {
                None
            },
    {
        self.farming.get(id)
    }

    /// Takes note that the transfer of the payout to the account `account_id` has
    /// succeeded. The duty is to submit the transfer of what waited for it.
    pub fn transfer_succeeded(&mut self, account_id: AccountId) -> (duty: Option<NodeDuty>)
        ensures
            final(self).base_cost() == old(self).base_cost(),
            final(self).accounts() == old(self).accounts(),
            final(self).farming() == old(self).farming(),
            final(self).rewarded() == old(self).rewarded(),
            duty == success_duty(old(self).pending(), account_id),
            final(self).pending() == after_success(old(self).pending(), account_id),
    {
        self.section_funds.transfer_succeeded(account_id)
    }

    /// Takes note that the transfer of the payout to the account `account_id` has failed.
    /// The duties are to try it again after a delay, or to give the payout up as failed and
    /// to submit the transfer of what waited for it.
    pub fn transfer_failed(&mut self, account_id: AccountId) -> (duties: NodeDuties)
        ensures
            final(self).base_cost() == old(self).base_cost(),
            final(self).accounts() == old(self).accounts(),
            final(self).farming() == old(self).farming(),
            final(self).rewarded() == old(self).rewarded(),
            duties@ == failure_duties(old(self).pending(), account_id),
            final(self).pending() == after_failure(old(self).pending(), account_id),
    {
        self.section_funds.transfer_failed(account_id)
    }

    /// Does `duty`, and says what the node is to do next. The accounts, the counters and
    /// the payouts change as the duty says; a message that is sent has a new id.
    pub fn process(&mut self, duty: RewardDuty) -> (operation: Option<NodeOperation>)
        ensures
            is_step(
                *old(self),
                *final(self),
                duty,
                match operation {
                    Some(op) => sent_id(op),
                    None => arbitrary(),
                },
                operation,
            ),
            forall|node: XorName|
                permitted(
                    stage_of(old(self).accounts(), node),
                    #[trigger] stage_of(final(self).accounts(), node),
                ),
    {
        self.process_with(duty, MessageId::new())
    }

    /// Does `duty`, and says what the node is to do next, where a message that is sent
    /// gets the id `id`. The accounts, the counters and the payouts change as the duty
    /// says.
    pub fn process_with(&mut self, duty: RewardDuty, id: MessageId) -> (operation: Option<
        NodeOperation,
    >)
        ensures
            is_step(*old(self), *final(self), duty, id, operation),
            forall|node: XorName|
                permitted(
                    stage_of(old(self).accounts(), node),
                    #[trigger] stage_of(final(self).accounts(), node),
                ),
    {
        match duty {
            RewardDuty::AccumulateReward { data } => self.accumulate_reward(data),
            RewardDuty::AddNewAccount { id: account, node_id } => self.add_account(account, node_id),
            RewardDuty::AddRelocatedAccount { old_node_id, new_node_id } => {
                self.add_relocated_account(old_node_id, new_node_id, id)
            },
            RewardDuty::ClaimRewardCounter { old_node_id, new_node_id, msg_id, origin } => {
                self.claim_rewards(old_node_id, new_node_id, msg_id, &origin, id)
            },
            RewardDuty::ReceiveClaimedRewards { id: account, node_id, counter } => {
                self.receive_claimed_rewards(account, node_id, counter)
            },
            RewardDuty::PrepareAccountMove { node_id } => self.node_left(node_id),
        }
    }

    /// A brand new node has joined the section: its account is active from the start. A
    /// node that has an account already keeps it as it is.
    fn add_account(&mut self, id: AccountId, node_id: XorName) -> (operation: Option<NodeOperation>)
        ensures
            final(self).base_cost() == old(self).base_cost(),
            operation is None,
            final(self).accounts() == accounts_after(
                old(self).accounts(),
                old(self).farming(),
                RewardDuty::AddNewAccount { id, node_id },
            ),
            final(self).farming() == old(self).farming(),
            final(self).rewarded() == old(self).rewarded(),
            final(self).pending() == old(self).pending(),
    {
        if !self.node_accounts.contains_key(&node_id) {
            let _ = self.node_accounts.insert(node_id, RewardAccount::Active(id));
        }
        None
    }

    /// A node has moved to the section: its account awaits its start, and the counter is
    /// claimed from the section that the node has left. A node that has an account already
    /// keeps it as it is, and nothing is claimed.
    fn add_relocated_account(
        &mut self,
        old_node_id: XorName,
        new_node_id: XorName,
        id: MessageId,
    ) -> (operation: Option<NodeOperation>)
        ensures
            final(self).base_cost() == old(self).base_cost(),
            operation == if old(self).accounts().contains_key(new_node_id) {
                None
            } else {
                Some(claim_cmd(old_node_id, new_node_id, id))
            },
            final(self).accounts() == accounts_after(
                old(self).accounts(),
                old(self).farming(),
                RewardDuty::AddRelocatedAccount { old_node_id, new_node_id },
            ),
            final(self).farming() == old(self).farming(),
            final(self).rewarded() == old(self).rewarded(),
            final(self).pending() == old(self).pending(),
    {
        if self.node_accounts.contains_key(&new_node_id) {
            return None;
        }
        let _ = self.node_accounts.insert(new_node_id, RewardAccount::AwaitingStart);
        Some(
            NodeOperation::RunAsNode(
                NodeDuty::Send(
                    OutgoingMsg {
                        msg: Message::NetworkCmd {
                            cmd: NetworkCmd::Rewards(
                                NetworkRewardCmd::ClaimRewardCounter { old_node_id, new_node_id },
                            ),
                            id,
                        },
                        section_source: true,
                        dst: DstLocation::Section(old_node_id),
                        aggregation: Aggregation::AtDestination,
                    },
                ),
            ),
        )
    }

    /// The old section has sent the counter of a node that moved here. Where the node
    /// awaits its start, the account is counted from the work it had done, and becomes
    /// active; a reward that it had earned is paid out. A counter that nothing awaits is
    /// dropped.
    fn receive_claimed_rewards(
        &mut self,
        id: AccountId,
        node_id: XorName,
        counter: RewardCounter,
    ) -> (operation: Option<NodeOperation>)
        ensures
            final(self).base_cost() == old(self).base_cost(),
            operation == operation_after(
                old(self).accounts(),
                old(self).farming(),
                old(self).pending(),
                RewardDuty::ReceiveClaimedRewards { id, node_id, counter },
                arbitrary(),
            ),
            final(self).accounts() == accounts_after(
                old(self).accounts(),
                old(self).farming(),
                RewardDuty::ReceiveClaimedRewards { id, node_id, counter },
            ),
            final(self).farming() == farming_after(
                old(self).base_cost(),
                old(self).accounts(),
                old(self).farming(),
                old(self).rewarded(),
                RewardDuty::ReceiveClaimedRewards { id, node_id, counter },
            ),
            final(self).rewarded() == old(self).rewarded(),
            final(self).pending() == pending_after(
                old(self).accounts(),
                old(self).farming(),
                old(self).pending(),
                RewardDuty::ReceiveClaimedRewards { id, node_id, counter },
            ),
    {
        match self.node_accounts.get(&node_id) {
            None => {
                return None;
            },
            Some(account) => {
                match account {
                    RewardAccount::AwaitingStart => {},
                    _ => {
                        return None;
                    },
                }
            },
        }
        match self.farming.add_account(id, counter.work) {
            Ok(_) => {
                let _ = self.node_accounts.insert(node_id, RewardAccount::Active(id));
                if counter.reward.as_nano() > 0 {
                    return match self.section_funds.initiate_reward_payout(counter.reward, id) {
                        Some(payout) => Some(NodeOperation::RunAsNode(payout)),
                        None => None,
                    };
                }
                None
            },
            Err(_) => None,
        }
    }

    /// The section has stored data: every account that is counted has done one more piece
    /// of work and earns its share of the reward. The same data is rewarded once only.
    fn accumulate_reward(&mut self, data: Vec<u8>) -> (operation: Option<NodeOperation>)
        ensures
            final(self).base_cost() == old(self).base_cost(),
            operation is None,
            final(self).accounts() == old(self).accounts(),
            final(self).farming() == farming_after(
                old(self).base_cost(),
                old(self).accounts(),
                old(self).farming(),
                old(self).rewarded(),
                RewardDuty::AccumulateReward { data },
            ),
            final(self).rewarded() == rewarded_data_after(
                old(self).base_cost(),
                old(self).farming(),
                old(self).rewarded(),
                RewardDuty::AccumulateReward { data },
            ),
            final(self).pending() == old(self).pending(),
    {
        let num_bytes: u64 = data.len() as u64;
        let rest: Vec<u8> = Vec::new();
        let data_hash: XorName = XorName::from_content(&data, &rest);
        assert(data@ + rest@ =~= data@);
        let _ = self.farming.reward(data_hash, num_bytes, REWARD_FACTOR);
        None
    }

    /// A node has left the section: its account, if it is active, awaits its move.
    fn node_left(&mut self, node_id: XorName) -> (operation: Option<NodeOperation>)
        ensures
            final(self).base_cost() == old(self).base_cost(),
            operation is None,
            final(self).accounts() == accounts_after(
                old(self).accounts(),
                old(self).farming(),
                RewardDuty::PrepareAccountMove { node_id },
            ),
            final(self).farming() == old(self).farming(),
            final(self).rewarded() == old(self).rewarded(),
            final(self).pending() == old(self).pending(),
    {
        let id: AccountId = match self.node_accounts.get(&node_id) {
            Some(RewardAccount::Active(id)) => *id,
            _ => {
                return None;
            },
        };
        let _ = self.node_accounts.insert(node_id, RewardAccount::AwaitingMove(id));
        None
    }

    /// The section that a node has moved to claims the node's counter. Where the account
    /// awaits its move, the counter is taken out of the farming system and sent to the
    /// claimant, and the account is gone. The claim of an account that is still active is
    /// refused.
    fn claim_rewards(
        &mut self,
        old_node_id: XorName,
        new_node_id: XorName,
        msg_id: MessageId,
        origin: &SrcLocation,
        id: MessageId,
    ) -> (operation: Option<NodeOperation>)
        ensures
            final(self).base_cost() == old(self).base_cost(),
            operation == operation_after(
                old(self).accounts(),
                old(self).farming(),
                old(self).pending(),
                RewardDuty::ClaimRewardCounter {
                    old_node_id,
                    new_node_id,
                    msg_id,
                    origin: *origin,
                },
                id,
            ),
            final(self).accounts() == accounts_after(
                old(self).accounts(),
                old(self).farming(),
                RewardDuty::ClaimRewardCounter {
                    old_node_id,
                    new_node_id,
                    msg_id,
                    origin: *origin,
                },
            ),
            final(self).farming() == farming_after(
                old(self).base_cost(),
                old(self).accounts(),
                old(self).farming(),
                old(self).rewarded(),
                RewardDuty::ClaimRewardCounter {
                    old_node_id,
                    new_node_id,
                    msg_id,
                    origin: *origin,
                },
            ),
            final(self).rewarded() == old(self).rewarded(),
            final(self).pending() == old(self).pending(),
    {
        let account_id: AccountId = match self.node_accounts.get(&old_node_id) {
            Some(RewardAccount::AwaitingMove(account)) => *account,
            Some(RewardAccount::Active(account)) => {
                return Some(
                    Self::network_error(ErrorMessage::InvalidClaim, *account, msg_id, *origin, id),
                );
            },
            _ => {
                return None;
            },
        };
        let counter: RewardCounter = match self.farming.claim(account_id) {
            Ok(counter) => counter,
            Err(_) => {
                return Some(
                    Self::network_error(
                        ErrorMessage::NoSuchAccount,
                        account_id,
                        msg_id,
                        *origin,
                        id,
                    ),
                );
            },
        };
        let _ = self.node_accounts.remove(&old_node_id);
        Some(
            NodeOperation::RunAsNode(
                NodeDuty::Send(
                    OutgoingMsg {
                        msg: Message::NetworkEvent {
                            event: NetworkEvent::RewardCounterClaimed {
                                new_node_id,
                                account_id,
                                counter,
                            },
                            id,
                            correlation_id: msg_id,
                        },
                        section_source: true,
                        dst: get_dst_from_src(*origin),
                        aggregation: Aggregation::AtDestination,
                    },
                ),
            ),
        )
    }

    /// The message that refuses a claim.
    fn network_error(
        error: ErrorMessage,
        account_id: AccountId,
        msg_id: MessageId,
        origin: SrcLocation,
        id: MessageId,
    ) -> (operation: NodeOperation)
        ensures
            operation == claim_error(error, account_id, id, msg_id, origin),
    {
        NodeOperation::RunAsNode(
            NodeDuty::Send(
                OutgoingMsg {
                    msg: Message::NetworkCmdError {
                        error: NetworkCmdError::Rewards(
                            NetworkRewardError::RewardClaiming { error, account_id },
                        ),
                        id,
                        correlation_id: msg_id,
                    },
                    section_source: true,
                    dst: get_dst_from_src(origin),
                    aggregation: Aggregation::AtDestination,
                },
            ),
        )
    }
}

/// The life of an account: whatever the duty, the account of every node stays as it is or
/// takes one of the steps that are permitted.
pub proof fn lemma_account_lifecycle(
    accounts: Map<XorName, RewardAccount>,
    farming: Accounts,
    duty: RewardDuty,
    node: XorName,
)
    ensures
        permitted(
            stage_of(accounts, node),
            stage_of(accounts_after(accounts, farming, duty), node),
        ),
{
}

/// Work moves with the node: when the section that a node has moved to claims the node's
/// counter, the old section hands over the work that it had counted, and the new section
/// counts on from that work. The account is gone from the old section.
pub proof fn lemma_work_carried_over(
    base_cost: Token,
    old_accounts: Map<XorName, RewardAccount>,
    old_farming: Accounts,
    old_pending: Seq<PendingPayout>,
    new_accounts: Map<XorName, RewardAccount>,
    new_farming: Accounts,
    rewarded: Set<XorName>,
    account: AccountId,
    old_node_id: XorName,
    new_node_id: XorName,
    msg_id: MessageId,
    origin: SrcLocation,
    id: MessageId,
)
    requires
        distinct_accounts(old_farming),
        distinct_accounts(new_farming),
        stage_of(old_accounts, old_node_id) == Some(RewardAccount::AwaitingMove(account)),
        has_account(old_farming, account),
        takes_counter(new_accounts, new_farming, account, new_node_id),
    ensures
        ({
            let claim = RewardDuty::ClaimRewardCounter { old_node_id, new_node_id, msg_id, origin };
            let counter = counter_of(old_farming, account);
            let receive = RewardDuty::ReceiveClaimedRewards {
                id: account,
                node_id: new_node_id,
                counter,
            };
            let counted = farming_after(base_cost, new_accounts, new_farming, rewarded, receive);
            &&& operation_after(old_accounts, old_farming, old_pending, claim, id) == Some(
                claimed_event(new_node_id, account, counter, id, msg_id, origin),
            )
            &&& stage_of(accounts_after(old_accounts, old_farming, claim), old_node_id) is None
            &&& !has_account(
                farming_after(base_cost, old_accounts, old_farming, rewarded, claim),
                account,
            )
            &&& stage_of(accounts_after(new_accounts, new_farming, receive), new_node_id) == Some(
                RewardAccount::Active(account),
            )
            &&& has_account(counted, account)
            &&& counter_of(counted, account).work == counter.work
        }),
{
    lemma_claim_once(old_farming, account);
    lemma_added_account_starts_from_work(
        new_farming,
        account,
        counter_of(old_farming, account).work,
    );
}

/// Whatever the duty, the work of an account that is counted and is not claimed does not
/// decrease.
pub proof fn lemma_work_never_decreases(
    base_cost: Token,
    accounts: Map<XorName, RewardAccount>,
    farming: Accounts,
    rewarded: Set<XorName>,
    duty: RewardDuty,
    account: AccountId,
)
    requires
        distinct_accounts(farming),
        has_account(farming, account),
        has_account(farming_after(base_cost, accounts, farming, rewarded, duty), account),
    ensures
        counter_of(farming_after(base_cost, accounts, farming, rewarded, duty), account).work
            >= counter_of(farming, account).work,
{
    let after = farming_after(base_cost, accounts, farming, rewarded, duty);
    match duty {
        RewardDuty::AccumulateReward { data } => {
            lemma_reward_never_lowers_work(
                base_cost,
                farming,
                rewarded,
                data_name(data@),
                data@.len() as u64,
                REWARD_FACTOR,
                account,
            );
        },
        RewardDuty::ClaimRewardCounter { old_node_id, .. } => {
            match stage_of(accounts, old_node_id) {
                Some(RewardAccount::AwaitingMove(claimed)) => {
                    if has_account(farming, claimed) {
                        lemma_claim_keeps_others(farming, claimed, account);
                    }
                },
                _ => {},
            }
        },
        RewardDuty::ReceiveClaimedRewards { id, node_id, counter } => {
            if takes_counter(accounts, farming, id, node_id) {
                let i = account_index(farming, account);
                lemma_account_at(farming, i);
                lemma_added_account_starts_from_work(farming, id, counter.work);
                assert(after[i] == farming[i]);
                lemma_account_at(after, i);
            }
        },
        _ => {},
    }
}

} // verus!
