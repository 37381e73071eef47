//! The agent that keeps replies to traffic of secondary interfaces from being masqueraded: it sees
//! to it that packets are marked with the interface they came in by, and that marked packets are
//! routed by the table of that interface.
use crate::error::Error;
use crate::search::{first_where, is_first, lemma_first_absent, lemma_first_found};
use crate::text::{decimal, decimal_text, numeral, numeral_text};
use std::collections::HashSet;
use vstd::pervasive::unreached;
use vstd::prelude::*;

verus! {

/// The table that the marking rules stand in.
pub const TABLE: &'static str = "mangle";

/// The chain that the marking rules stand in.
pub const CHAIN: &'static str = "CILIUM_PRE_mangle";

/// The bits of a mark that name an interface.
pub const FW_MASK: u32 = 0xf;

/// The first secondary interface, `eth1`.
pub const FIRST_SECONDARY_ENI_INDEX: u32 = 1;

/// The last secondary interface, `eth15`: no instance type has more than fifteen.
pub const LAST_SECONDARY_ENI_INDEX: u32 = 15;

/// An attribute of a routing rule.
#[derive(Debug)]
pub enum RuleAttribute {
    /// The mark that the rule is for.
    FwMark(u32),
    /// The bits of the mark that the rule looks at.
    FwMask(u32),
    /// Anything else.
    Other,
}

/// A routing rule that is installed.
#[derive(Debug)]
pub struct IpRule {
    pub attributes: Vec<RuleAttribute>,
}

/// A routing rule as a mathematical value.
pub struct IpRuleView {
    pub attributes: Seq<RuleAttribute>,
}

impl DeepView for RuleAttribute {
    type V = RuleAttribute;

    open spec fn deep_view(&self) -> RuleAttribute {
        *self
    }
}

impl DeepView for IpRule {
    type V = IpRuleView;

    open spec fn deep_view(&self) -> IpRuleView {
        IpRuleView { attributes: self.attributes.deep_view() }
    }
}

/// A routing rule that is to be installed.
#[derive(Debug, Clone, Copy, PartialEq, Eq, Structural)]
pub struct NewIpRule {
    pub table_id: u32,
    pub action: u8,
    pub priority: u32,
    pub fw_mark: u32,
    pub fw_mask: u32,
}

// Rules.

/// The rule that restores the mark of a connection on the packets that pods send.
pub open spec fn restore_mark_rule() -> Seq<char> {
    "-i lxc+ -m comment --comment \"cilium: secondary interfaces\" -j CONNMARK --restore-mark --nfmask "@
        + decimal(FW_MASK as nat) + " --ctmask "@ + decimal(FW_MASK as nat)
}

/// The rule that marks the connections that come in by an interface.
pub open spec fn mark_rule(interface_index: nat) -> Seq<char> {
    "-i eth"@ + decimal(interface_index) + " -m comment --comment \"cilium: eth"@ + decimal(
        interface_index,
    )
        + "\" -m addrtype --dst-type UNICAST --limit-iface-in -j CONNMARK --set-xmark 0x"@
        + numeral(interface_index, 16) + "/"@ + decimal(FW_MASK as nat)
}

/// The routing rule for the packets that carry the mark of an interface. Cilium numbers the tables
/// of the secondary interfaces from eleven. The priority lies behind the rules that Cilium installs
/// for `eth0`, for traffic within the network and for pods.
pub open spec fn ip_rule(interface_index: u32) -> NewIpRule {
    NewIpRule {
        table_id: (10 + interface_index) as u32,
        action: 1,
        priority: 200,
        fw_mark: interface_index,
        fw_mask: FW_MASK,
    }
}

/// The rule that restores the mark of a connection on the packets that pods send.
pub fn restore_mark_iptables_rule() -> (r: String)
    ensures
        r@ == restore_mark_rule(),
{
    "-i lxc+ -m comment --comment \"cilium: secondary interfaces\" -j CONNMARK --restore-mark --nfmask ".to_owned().concat(
    decimal_text(FW_MASK as u64).as_str()).concat(" --ctmask ").concat(
        decimal_text(FW_MASK as u64).as_str(),
    )
}

/// The rule that marks the connections that come in by an interface.
pub fn mark_iptables_rule(interface_index: u32) -> (r: String)
    ensures
        r@ == mark_rule(interface_index as nat),
{
    let index = decimal_text(interface_index as u64);
    "-i eth".to_owned().concat(index.as_str()).concat(" -m comment --comment \"cilium: eth").concat(
        index.as_str(),
    ).concat(
        "\" -m addrtype --dst-type UNICAST --limit-iface-in -j CONNMARK --set-xmark 0x",
    ).concat(numeral_text(interface_index as u64, 16).as_str()).concat("/").concat(
        decimal_text(FW_MASK as u64).as_str(),
    )
}

/// The routing rule for the packets that carry the mark of an interface.
pub fn new_ip_rule(interface_index: u32) -> (r: NewIpRule)
    requires
        10 + interface_index <= u32::MAX,
    ensures
        r == ip_rule(interface_index),
        r.table_id == 10 + interface_index,
        r.action == 1,
        r.priority == 200,
        r.fw_mark == interface_index,
        r.fw_mask == 0xf,
{
    NewIpRule {
        table_id: 10 + interface_index,
        action: 1,
        priority: 200,
        fw_mark: interface_index,
        fw_mask: FW_MASK,
    }
}

// Installed rules.

impl IpRuleView {
    /// Whether the rule looks at the bits of the mark that name an interface.
    pub open spec fn is_masked(self) -> bool {
        self.attributes.contains(RuleAttribute::FwMask(FW_MASK))
    }

    /// The first mark that the rule names.
    pub open spec fn mark(self) -> Option<u32> {
        match first_where(self.attributes, |a: RuleAttribute| a is FwMark) {
            Some(RuleAttribute::FwMark(mark)) => Some(mark),
            _ => None,
        }
    }
}

/// Whether every rule that looks at the bits of an interface names a mark.
pub open spec fn masks_come_with_marks(rules: Seq<IpRuleView>) -> bool {
    forall|i: int|
        0 <= i < rules.len() && (#[trigger] rules[i]).is_masked() ==> rules[i].mark() is Some
}

/// The interfaces that rules are installed for.
pub open spec fn marked_interfaces(rules: Seq<IpRuleView>) -> Set<u32> {
    Set::new(
        |m: u32|
            exists|i: int|
                0 <= i < rules.len() && (#[trigger] rules[i]).is_masked() && rules[i].mark() == Some(
                    m,
                ),
    )
}

/// Whether the rule looks at the bits of the mark that name an interface.
fn is_masked(rule: &IpRule) -> (r: bool)
    ensures
        r == rule.deep_view().is_masked(),
{
    let ghost all = rule.attributes.deep_view();
    let mut i: usize = 0;
    while i < rule.attributes.len()
        invariant
            all == rule.attributes.deep_view(),
            i <= rule.attributes.len(),
            forall|j: int| 0 <= j < i ==> #[trigger] all[j] != RuleAttribute::FwMask(FW_MASK),
        decreases rule.attributes.len() - i,
    {
        assert(all[i as int] == rule.attributes[i as int]);
        match &rule.attributes[i] {
            RuleAttribute::FwMask(mask) => {
                if *mask == FW_MASK {
                    return true;
                }
            },
            _ => {},
        }
        i = i + 1;
    }
    false
}

/// The first mark that the rule names.
fn mark_of(rule: &IpRule) -> (r: Option<u32>)
    ensures
        r == rule.deep_view().mark(),
{
    let ghost all = rule.attributes.deep_view();
    let ghost is_mark = |a: RuleAttribute| a is FwMark;
    let mut i: usize = 0;
    while i < rule.attributes.len()
        invariant
            all == rule.attributes.deep_view(),
            is_mark == (|a: RuleAttribute| a is FwMark),
            i <= rule.attributes.len(),
            forall|j: int| 0 <= j < i ==> !#[trigger] is_mark(all[j]),
        decreases rule.attributes.len() - i,
    {
        assert(all[i as int] == rule.attributes[i as int]);
        match &rule.attributes[i] {
            RuleAttribute::FwMark(mark) => {
                proof {
                    assert(is_first(all, is_mark, i as int));
                    lemma_first_found(all, is_mark, i as int);
                }
                return Some(*mark);
            },
            _ => {},
        }
        i = i + 1;
    }
    proof {
        lemma_first_absent(all, is_mark);
    }
    None
}

/// Whether every rule that looks at the bits of an interface names a mark.
pub fn do_masks_come_with_marks(rules: &Vec<IpRule>) -> (r: bool)
    ensures
        r == masks_come_with_marks(rules.deep_view()),
{
    let ghost all = rules.deep_view();
    let mut i: usize = 0;
    while i < rules.len()
        invariant
            all == rules.deep_view(),
            i <= rules.len(),
            forall|j: int|
                0 <= j < i && (#[trigger] all[j]).is_masked() ==> all[j].mark() is Some,
        decreases rules.len() - i,
    {
        assert(all[i as int] == rules[i as int].deep_view());
        if is_masked(&rules[i]) && mark_of(&rules[i]).is_none() {
            return false;
        }
        i = i + 1;
    }
    true
}

/// The interfaces that rules are installed for.
pub fn get_eni_indexes_for_existing_ip_rules(rules: &Vec<IpRule>) -> (r: HashSet<u32>)
    requires
        masks_come_with_marks(rules.deep_view()),
    ensures
        r@ == marked_interfaces(rules.deep_view()),
{
    broadcast use vstd::std_specs::hash::group_hash_axioms;

    let ghost all = rules.deep_view();
    let mut indexes: HashSet<u32> = HashSet::new();
    let mut i: usize = 0;
    proof {
        assert(indexes@ =~= marked_interfaces(all.take(0)));
    }
    while i < rules.len()
        invariant
            all == rules.deep_view(),
            masks_come_with_marks(all),
            i <= rules.len(),
            indexes@ == marked_interfaces(all.take(i as int)),
        decreases rules.len() - i,
    {
        broadcast use vstd::std_specs::hash::group_hash_axioms;

        let ghost before = indexes@;
        let ghost rule = all[i as int];
        assert(rule == rules[i as int].deep_view());
        let ghost next = all.take(i + 1);
        proof {
            assert(next[i as int] == rule);
            assert(forall|j: int| 0 <= j < i ==> #[trigger] next[j] == all.take(i as int)[j]);
            assert(forall|j: int| 0 <= j < i ==> #[trigger] all.take(i as int)[j] == next[j]);
            assert forall|m: u32| #[trigger]
                marked_interfaces(next).contains(m) <==> before.contains(m) || (rule.is_masked()
                    && rule.mark() == Some(m)) by {
                if before.contains(m) {
                    let j = choose|j: int|
                        0 <= j < i && (#[trigger] all.take(i as int)[j]).is_masked() && all.take(
                            i as int,
                        )[j].mark() == Some(m);
                    assert(next[j].is_masked());
                }
                if rule.is_masked() && rule.mark() == Some(m) {
                    assert(next[i as int].is_masked());
                }
            }
        }
        if is_masked(&rules[i]) {
            match mark_of(&rules[i]) {
                Some(mark) => {
                    indexes.insert(mark);
                    assert(indexes@ =~= marked_interfaces(next));
                },
                None => {
                    assert(false);
                },
            }
        } else {
            assert(indexes@ =~= marked_interfaces(next));
        }
        i = i + 1;
    }
    proof {
        assert(all.take(all.len() as int) =~= all);
    }
    indexes
}

// The loop.

/// What the agent asks for.
#[allow(inconsistent_fields)]
#[derive(Debug)]
pub enum AgentRequest {
    /// Whether the chain exists.
    ChainExists { table: String, chain: String },
    /// Whether the rule stands in the chain.
    RuleExists { table: String, chain: String, rule: String },
    /// Append the rule to the chain.
    AppendRule { table: String, chain: String, rule: String },
    /// List the routing rules.
    ListIpRules,
    /// Install a routing rule.
    AddIpRule { rule: NewIpRule },
    /// Wait for so many seconds.
    Sleep { secs: u64 },
}

/// An `AgentRequest` as a mathematical value.
#[allow(inconsistent_fields)]
pub enum AgentRequestView {
    ChainExists { table: Seq<char>, chain: Seq<char> },
    RuleExists { table: Seq<char>, chain: Seq<char>, rule: Seq<char> },
    AppendRule { table: Seq<char>, chain: Seq<char>, rule: Seq<char> },
    ListIpRules,
    AddIpRule { rule: NewIpRule },
    Sleep { secs: u64 },
}

impl DeepView for AgentRequest {
    type V = AgentRequestView;

    open spec fn deep_view(&self) -> AgentRequestView {
        match self {
            AgentRequest::ChainExists { table, chain } => AgentRequestView::ChainExists {
                table: table@,
                chain: chain@,
            },
            AgentRequest::RuleExists { table, chain, rule } => AgentRequestView::RuleExists {
                table: table@,
                chain: chain@,
                rule: rule@,
            },
            AgentRequest::AppendRule { table, chain, rule } => AgentRequestView::AppendRule {
                table: table@,
                chain: chain@,
                rule: rule@,
            },
            AgentRequest::ListIpRules => AgentRequestView::ListIpRules,
            AgentRequest::AddIpRule { rule } => AgentRequestView::AddIpRule { rule: *rule },
            AgentRequest::Sleep { secs } => AgentRequestView::Sleep { secs: *secs },
        }
    }
}

/// What a request of the agent was answered with.
#[derive(Debug)]
pub enum AgentReply {
    /// The request was carried out.
    Done,
    /// Whether what was asked about is there.
    Present(bool),
    /// Routing rules.
    IpRules(Vec<IpRule>),
}

/// An `AgentReply` as a mathematical value.
pub enum AgentReplyView {
    Done,
    Present(bool),
    IpRules(Seq<IpRuleView>),
}

impl DeepView for AgentReply {
    type V = AgentReplyView;

    open spec fn deep_view(&self) -> AgentReplyView {
        match self {
            AgentReply::Done => AgentReplyView::Done,
            AgentReply::Present(present) => AgentReplyView::Present(*present),
            AgentReply::IpRules(rules) => AgentReplyView::IpRules(rules.deep_view()),
        }
    }
}

/// The answer to a request of the agent as a mathematical value.
pub open spec fn agent_answer_view(answer: Result<AgentReply, Error>) -> Result<
    AgentReplyView,
    Error,
> {
    match answer {
        Ok(reply) => Ok(reply.deep_view()),
        Err(e) => Err(e),
    }
}

/// What the agent is about.
#[allow(inconsistent_fields)]
#[derive(Debug)]
pub enum Agent {
    /// It looks whether the chain exists.
    LookingForChain,
    /// It waits for the chain to exist.
    WaitingForChain,
    /// It looks whether the rule is there that restores marks.
    CheckingRestoreMark,
    /// It appends the rule that restores marks.
    AppendingRestoreMark,
    /// It lists the routing rules.
    ListingIpRules,
    /// It looks whether the rule is there that marks what comes in by an interface.
    CheckingMark { interface_index: u32, existing: HashSet<u32> },
    /// It appends that rule.
    AppendingMark { interface_index: u32, existing: HashSet<u32> },
    /// It installs the routing rule of the interface.
    InsertingIpRule { interface_index: u32, existing: HashSet<u32> },
    /// It waits before it looks again.
    Resting,
}

/// An `Agent` as a mathematical value.
#[allow(inconsistent_fields)]
pub enum AgentView {
    LookingForChain,
    WaitingForChain,
    CheckingRestoreMark,
    AppendingRestoreMark,
    ListingIpRules,
    CheckingMark { interface_index: u32, existing: Set<u32> },
    AppendingMark { interface_index: u32, existing: Set<u32> },
    InsertingIpRule { interface_index: u32, existing: Set<u32> },
    Resting,
}

impl DeepView for Agent {
    type V = AgentView;

    open spec fn deep_view(&self) -> AgentView {
        match self {
            Agent::LookingForChain => AgentView::LookingForChain,
            Agent::WaitingForChain => AgentView::WaitingForChain,
            Agent::CheckingRestoreMark => AgentView::CheckingRestoreMark,
            Agent::AppendingRestoreMark => AgentView::AppendingRestoreMark,
            Agent::ListingIpRules => AgentView::ListingIpRules,
            Agent::CheckingMark { interface_index, existing } => AgentView::CheckingMark {
                interface_index: *interface_index,
                existing: existing@,
            },
            Agent::AppendingMark { interface_index, existing } => AgentView::AppendingMark {
                interface_index: *interface_index,
                existing: existing@,
            },
            Agent::InsertingIpRule { interface_index, existing } => AgentView::InsertingIpRule {
                interface_index: *interface_index,
                existing: existing@,
            },
            Agent::Resting => AgentView::Resting,
        }
    }
}

/// Once the marking rule of an interface is there, its routing rule is installed, unless it is
/// there too.
pub open spec fn after_mark(interface_index: u32, existing: Set<u32>) -> AgentView {
    if existing.contains(interface_index) {
        after_interface(interface_index, existing)
    } else {
        AgentView::InsertingIpRule { interface_index, existing }
    }
}

/// After one interface comes the next, and after the last one a rest.
pub open spec fn after_interface(interface_index: u32, existing: Set<u32>) -> AgentView {
    if interface_index < LAST_SECONDARY_ENI_INDEX {
        AgentView::CheckingMark { interface_index: (interface_index + 1) as u32, existing }
    } else {
        AgentView::Resting
    }
}

impl AgentView {
    /// What the agent asks for.
    pub open spec fn ask(self) -> AgentRequestView {
        match self {
            AgentView::LookingForChain => AgentRequestView::ChainExists {
                table: TABLE@,
                chain: CHAIN@,
            },
            AgentView::WaitingForChain => AgentRequestView::Sleep { secs: 1 },
            AgentView::CheckingRestoreMark => AgentRequestView::RuleExists {
                table: TABLE@,
                chain: CHAIN@,
                rule: restore_mark_rule(),
            },
            AgentView::AppendingRestoreMark => AgentRequestView::AppendRule {
                table: TABLE@,
                chain: CHAIN@,
                rule: restore_mark_rule(),
            },
            AgentView::ListingIpRules => AgentRequestView::ListIpRules,
            AgentView::CheckingMark { interface_index, .. } => AgentRequestView::RuleExists {
                table: TABLE@,
                chain: CHAIN@,
                rule: mark_rule(interface_index as nat),
            },
            AgentView::AppendingMark { interface_index, .. } => AgentRequestView::AppendRule {
                table: TABLE@,
                chain: CHAIN@,
                rule: mark_rule(interface_index as nat),
            },
            AgentView::InsertingIpRule { interface_index, .. } => AgentRequestView::AddIpRule {
                rule: ip_rule(interface_index),
            },
            AgentView::Resting => AgentRequestView::Sleep { secs: 1 },
        }
    }

    /// Whether an answer is one that the agent can go on from. Only a failure to list the routing
    /// rules is one that it ends in; any other failure is fatal.
    pub open spec fn fits(self, answer: Result<AgentReplyView, Error>) -> bool {
        match self {
            AgentView::LookingForChain => answer matches Ok(reply) && reply is Present,
            AgentView::WaitingForChain => answer matches Ok(reply) && reply is Done,
            AgentView::CheckingRestoreMark => answer matches Ok(reply) && reply is Present,
            AgentView::AppendingRestoreMark => answer matches Ok(reply) && reply is Done,
            AgentView::ListingIpRules => answer matches Ok(reply) ==> (
            reply matches AgentReplyView::IpRules(rules) && masks_come_with_marks(rules)),
            AgentView::CheckingMark { .. } => answer matches Ok(reply) && reply is Present,
            AgentView::AppendingMark { .. } => answer matches Ok(reply) && reply is Done,
            AgentView::InsertingIpRule { .. } => answer matches Ok(reply) && reply is Done,
            AgentView::Resting => answer matches Ok(reply) && reply is Done,
        }
    }

    /// How the agent goes on.
    pub open spec fn next(self, answer: Result<AgentReplyView, Error>) -> Result<AgentView, Error> {
        match (self, answer) {
            (_, Err(e)) => Err(e),
            (AgentView::LookingForChain, Ok(AgentReplyView::Present(present))) => Ok(
                if present {
                    AgentView::CheckingRestoreMark
                } else {
                    AgentView::WaitingForChain
                },
            ),
            (AgentView::WaitingForChain, Ok(_)) => Ok(AgentView::LookingForChain),
            (AgentView::CheckingRestoreMark, Ok(AgentReplyView::Present(present))) => Ok(
                if present {
                    AgentView::ListingIpRules
                } else {
                    AgentView::AppendingRestoreMark
                },
            ),
            (AgentView::AppendingRestoreMark, Ok(_)) => Ok(AgentView::ListingIpRules),
            (AgentView::ListingIpRules, Ok(AgentReplyView::IpRules(rules))) => Ok(
                AgentView::CheckingMark {
                    interface_index: FIRST_SECONDARY_ENI_INDEX,
                    existing: marked_interfaces(rules),
                },
            ),
            (
                AgentView::CheckingMark { interface_index, existing },
                Ok(AgentReplyView::Present(present)),
            ) => Ok(
                if present {
                    after_mark(interface_index, existing)
                } else {
                    AgentView::AppendingMark { interface_index, existing }
                },
            ),
            (AgentView::AppendingMark { interface_index, existing }, Ok(_)) => Ok(
                after_mark(interface_index, existing),
            ),
            (AgentView::InsertingIpRule { interface_index, existing }, Ok(_)) => Ok(
                after_interface(interface_index, existing),
            ),
            (AgentView::Resting, Ok(_)) => Ok(AgentView::LookingForChain),
            _ => arbitrary(),
        }
    }

    /// Whether the interface that the agent is about is a secondary one.
    pub open spec fn is_valid(self) -> bool {
        match self {
            AgentView::CheckingMark { interface_index, .. } => is_secondary(interface_index),
            AgentView::AppendingMark { interface_index, .. } => is_secondary(interface_index),
            AgentView::InsertingIpRule { interface_index, .. } => is_secondary(interface_index),
            _ => true,
        }
    }
}

/// Whether an interface is a secondary one.
pub open spec fn is_secondary(interface_index: u32) -> bool {
    FIRST_SECONDARY_ENI_INDEX <= interface_index <= LAST_SECONDARY_ENI_INDEX
}

impl Agent {
    fn after_mark(interface_index: u32, existing: HashSet<u32>) -> (r: Agent)
        requires
            is_secondary(interface_index),
        ensures
            r.deep_view() == after_mark(interface_index, existing@),
            r.deep_view().is_valid(),
    {
        broadcast use vstd::std_specs::hash::group_hash_axioms;

        if existing.contains(&interface_index) {
            Self::after_interface(interface_index, existing)
        } else {
            Agent::InsertingIpRule { interface_index, existing }
        }
    }

    fn after_interface(interface_index: u32, existing: HashSet<u32>) -> (r: Agent)
        requires
            is_secondary(interface_index),
        ensures
            r.deep_view() == after_interface(interface_index, existing@),
            r.deep_view().is_valid(),
    {
        if interface_index < LAST_SECONDARY_ENI_INDEX {
            Agent::CheckingMark { interface_index: interface_index + 1, existing }
        } else {
            Agent::Resting
        }
    }

    /// The agent starts with a look for the chain.
    pub fn start() -> (r: Agent)
        ensures
            r.deep_view() == AgentView::LookingForChain,
            r.deep_view().is_valid(),
    {
        Agent::LookingForChain
    }

    /// What the agent asks for.
    pub fn request(&self) -> (r: AgentRequest)
        requires
            self.deep_view().is_valid(),
        ensures
            r.deep_view() == self.deep_view().ask(),
    {
        match self {
            Agent::LookingForChain => AgentRequest::ChainExists {
                table: TABLE.to_owned(),
                chain: CHAIN.to_owned(),
            },
            Agent::WaitingForChain => AgentRequest::Sleep { secs: 1 },
            Agent::CheckingRestoreMark => AgentRequest::RuleExists {
                table: TABLE.to_owned(),
                chain: CHAIN.to_owned(),
                rule: restore_mark_iptables_rule(),
            },
            Agent::AppendingRestoreMark => AgentRequest::AppendRule {
                table: TABLE.to_owned(),
                chain: CHAIN.to_owned(),
                rule: restore_mark_iptables_rule(),
            },
            Agent::ListingIpRules => AgentRequest::ListIpRules,
            Agent::CheckingMark { interface_index, .. } => AgentRequest::RuleExists {
                table: TABLE.to_owned(),
                chain: CHAIN.to_owned(),
                rule: mark_iptables_rule(*interface_index),
            },
            Agent::AppendingMark { interface_index, .. } => AgentRequest::AppendRule {
                table: TABLE.to_owned(),
                chain: CHAIN.to_owned(),
                rule: mark_iptables_rule(*interface_index),
            },
            Agent::InsertingIpRule { interface_index, .. } => AgentRequest::AddIpRule {
                rule: new_ip_rule(*interface_index),
            },
            Agent::Resting => AgentRequest::Sleep { secs: 1 },
        }
    }

    /// Whether the agent can go on from an answer.
    pub fn accepts(&self, answer: &Result<AgentReply, Error>) -> (r: bool)
        ensures
            r == self.deep_view().fits(agent_answer_view(*answer)),
    {
        match (self, answer) {
            (Agent::ListingIpRules, Err(_)) => true,
            (Agent::ListingIpRules, Ok(AgentReply::IpRules(rules))) => do_masks_come_with_marks(
                rules,
            ),
            (Agent::LookingForChain, Ok(AgentReply::Present(_))) => true,
            (Agent::CheckingRestoreMark, Ok(AgentReply::Present(_))) => true,
            (Agent::CheckingMark { .. }, Ok(AgentReply::Present(_))) => true,
            (Agent::WaitingForChain, Ok(AgentReply::Done)) => true,
            (Agent::AppendingRestoreMark, Ok(AgentReply::Done)) => true,
            (Agent::AppendingMark { .. }, Ok(AgentReply::Done)) => true,
            (Agent::InsertingIpRule { .. }, Ok(AgentReply::Done)) => true,
            (Agent::Resting, Ok(AgentReply::Done)) => true,
            _ => false,
        }
    }

    /// Goes on with the answer to what the agent asked for. The agent never finishes of itself; it
    /// ends in an error where the routing rules cannot be listed.
    pub fn resume(self, answer: Result<AgentReply, Error>) -> (r: Result<Agent, Error>)
        requires
            self.deep_view().is_valid(),
            self.deep_view().fits(agent_answer_view(answer)),
        ensures
            match self.deep_view().next(agent_answer_view(answer)) {
                Ok(next) => r matches Ok(agent) && agent.deep_view() == next && next.is_valid(),
                Err(e) => r == Err::<Agent, Error>(e),
            },
    {
        let reply = match answer {
            Ok(reply) => reply,
            Err(e) => {
                return Err(e);
            },
        };
        match (self, reply) {
            (Agent::LookingForChain, AgentReply::Present(present)) => Ok(
                if present {
                    Agent::CheckingRestoreMark
                } else {
                    Agent::WaitingForChain
                },
            ),
            (Agent::WaitingForChain, AgentReply::Done) => Ok(Agent::LookingForChain),
            (Agent::CheckingRestoreMark, AgentReply::Present(present)) => Ok(
                if present {
                    Agent::ListingIpRules
                } else {
                    Agent::AppendingRestoreMark
                },
            ),
            (Agent::AppendingRestoreMark, AgentReply::Done) => Ok(Agent::ListingIpRules),
            (Agent::ListingIpRules, AgentReply::IpRules(rules)) => Ok(
                Agent::CheckingMark {
                    interface_index: FIRST_SECONDARY_ENI_INDEX,
                    existing: get_eni_indexes_for_existing_ip_rules(&rules),
                },
            ),
            (
                Agent::CheckingMark { interface_index, existing },
                AgentReply::Present(present),
            ) => Ok(
                if present {
                    Self::after_mark(interface_index, existing)
                } else {
                    Agent::AppendingMark { interface_index, existing }
                },
            ),
            (Agent::AppendingMark { interface_index, existing }, AgentReply::Done) => Ok(
                Self::after_mark(interface_index, existing),
            ),
            (Agent::InsertingIpRule { interface_index, existing }, AgentReply::Done) => Ok(
                Self::after_interface(interface_index, existing),
            ),
            (Agent::Resting, AgentReply::Done) => Ok(Agent::LookingForChain),
            _ => unreached(),
        }
    }
}

// What a pass of the agent achieves.

/// Whether these name the chain whose rules the model keeps.
pub open spec fn is_the_chain(table: Seq<char>, chain: Seq<char>) -> bool {
    table == "mangle"@ && chain == "CILIUM_PRE_mangle"@
}

/// What the agent works on: the chain, its rules and the routing rules.
pub struct NetworkView {
    pub chain_exists: bool,
    pub rules: Set<Seq<char>>,
    pub ip_rules: Seq<InstalledRuleView>,
}

/// A routing rule that is in place: what a listing shows of it, the table that it looks up, what it
/// does with the packets that it is about, and its rank among the rules.
pub struct InstalledRuleView {
    pub shown: IpRuleView,
    pub table_id: u32,
    pub action: u8,
    pub priority: u32,
}

/// A routing rule once it is installed.
pub open spec fn installed(rule: NewIpRule) -> InstalledRuleView {
    InstalledRuleView {
        shown: IpRuleView {
            attributes: seq![
                RuleAttribute::FwMark(rule.fw_mark),
                RuleAttribute::FwMask(rule.fw_mask),
            ],
        },
        table_id: rule.table_id,
        action: rule.action,
        priority: rule.priority,
    }
}

impl NetworkView {
    /// What a listing of the routing rules shows.
    pub open spec fn shown(self) -> Seq<IpRuleView> {
        self.ip_rules.map_values(|r: InstalledRuleView| r.shown)
    }

    /// What the network answers to a request.
    pub open spec fn reply(self, request: AgentRequestView) -> AgentReplyView {
        match request {
            AgentRequestView::ChainExists { table, chain } => AgentReplyView::Present(
                self.chain_exists && is_the_chain(table, chain),
            ),
            AgentRequestView::RuleExists { table, chain, rule } => AgentReplyView::Present(
                self.rules.contains(rule) && is_the_chain(table, chain),
            ),
            AgentRequestView::ListIpRules => AgentReplyView::IpRules(self.shown()),
            _ => AgentReplyView::Done,
        }
    }

    /// What a request makes of the network.
    pub open spec fn after(self, request: AgentRequestView) -> NetworkView {
        match request {
            AgentRequestView::AppendRule { table, chain, rule } => if is_the_chain(table, chain) {
                NetworkView { rules: self.rules.insert(rule), ..self }
            } else {
                self
            },
            AgentRequestView::AddIpRule { rule } => NetworkView {
                ip_rules: self.ip_rules.push(installed(rule)),
                ..self
            },
            _ => self,
        }
    }

    /// Whether both rules of an interface are in place.
    pub open spec fn serves(self, interface_index: u32) -> bool {
        &&& self.rules.contains(mark_rule(interface_index as nat))
        &&& marked_interfaces(self.shown()).contains(interface_index)
    }

    /// Whether all rules are in place.
    pub open spec fn is_complete(self) -> bool {
        &&& self.rules.contains(restore_mark_rule())
        &&& forall|i: u32| is_secondary(i) ==> #[trigger] self.serves(i)
    }

    /// Whether the rules of all interfaces before one are in place.
    pub open spec fn serves_before(self, interface_index: u32) -> bool {
        &&& self.rules.contains(restore_mark_rule())
        &&& forall|i: u32|
            FIRST_SECONDARY_ENI_INDEX <= i < interface_index ==> #[trigger] self.serves(i)
    }
}

impl AgentView {
    /// Whether what the agent has passed by in this pass is in place, and what it knows is so.
    pub open spec fn has_seen_to(self, network: NetworkView) -> bool {
        match self {
            AgentView::ListingIpRules => network.rules.contains(restore_mark_rule()),
            AgentView::CheckingMark { interface_index, existing } => network.serves_before(
                interface_index,
            ) && existing.subset_of(marked_interfaces(network.shown())),
            AgentView::AppendingMark { interface_index, existing } => network.serves_before(
                interface_index,
            ) && existing.subset_of(marked_interfaces(network.shown())),
            AgentView::InsertingIpRule { interface_index, existing } => network.serves_before(
                interface_index,
            ) && existing.subset_of(marked_interfaces(network.shown())) && network.rules.contains(
                mark_rule(interface_index as nat),
            ) && !existing.contains(interface_index),
            AgentView::Resting => network.is_complete(),
            _ => true,
        }
    }

    /// Whether the agent changes nothing, and knows of every routing rule.
    pub open spec fn is_quiet(self) -> bool {
        match self {
            AgentView::AppendingRestoreMark => false,
            AgentView::AppendingMark { .. } => false,
            AgentView::InsertingIpRule { .. } => false,
            AgentView::CheckingMark { existing, .. } => forall|i: u32|
                is_secondary(i) ==> #[trigger] existing.contains(i),
            _ => true,
        }
    }

    /// How many more requests the agent makes at most before it rests, once the chain is there.
    pub open spec fn steps_left(self) -> int {
        match self {
            AgentView::CheckingRestoreMark => 3 * LAST_SECONDARY_ENI_INDEX + 3,
            AgentView::AppendingRestoreMark => 3 * LAST_SECONDARY_ENI_INDEX + 2,
            AgentView::ListingIpRules => 3 * LAST_SECONDARY_ENI_INDEX + 1,
            AgentView::CheckingMark { interface_index, .. } => 3 * (LAST_SECONDARY_ENI_INDEX
                - interface_index) + 3,
            AgentView::AppendingMark { interface_index, .. } => 3 * (LAST_SECONDARY_ENI_INDEX
                - interface_index) + 2,
            AgentView::InsertingIpRule { interface_index, .. } => 3 * (LAST_SECONDARY_ENI_INDEX
                - interface_index) + 1,
            _ => 0,
        }
    }
}

/// What installing one more routing rule adds.
proof fn lemma_installed(rules: Seq<IpRuleView>, interface_index: u32)
    ensures
        marked_interfaces(rules.push(installed(ip_rule(interface_index)).shown)) == marked_interfaces(
            rules,
        ).insert(interface_index),
        masks_come_with_marks(rules) ==> masks_come_with_marks(
            rules.push(installed(ip_rule(interface_index)).shown),
        ),
{
    let rule = installed(ip_rule(interface_index)).shown;
    let more = rules.push(rule);
    assert(rule.is_masked()) by {
        assert(rule.attributes[1] == RuleAttribute::FwMask(FW_MASK));
    }
    assert(rule.mark() == Some(interface_index)) by {
        let is_mark = |a: RuleAttribute| a is FwMark;
        assert(is_first(rule.attributes, is_mark, 0));
        lemma_first_found(rule.attributes, is_mark, 0);
    }
    assert(more[rules.len() as int] == rule);
    assert(forall|i: int| 0 <= i < rules.len() ==> #[trigger] more[i] == rules[i]);
    assert(forall|i: int| 0 <= i < rules.len() ==> #[trigger] rules[i] == more[i]);
    assert forall|m: u32| #[trigger]
        marked_interfaces(more).contains(m) <==> marked_interfaces(rules).insert(
            interface_index,
        ).contains(m) by {
        if marked_interfaces(rules).contains(m) {
            let i = choose|i: int|
                0 <= i < rules.len() && (#[trigger] rules[i]).is_masked() && rules[i].mark() == Some(
                    m,
                );
            assert(more[i].is_masked());
        }
        if m == interface_index {
            assert(more[rules.len() as int].is_masked());
        }
    }
    assert(marked_interfaces(more) =~= marked_interfaces(rules).insert(interface_index));
}

/// A pass of the agent puts everything in place: whatever it has passed by in this pass is in place
/// and stays so, and by the time it rests all rules are there. Each rule that it adds was missing
/// when it looked.
pub proof fn law_pass_completes(agent: AgentView, network: NetworkView)
    requires
        agent.is_valid(),
        agent.has_seen_to(network),
        masks_come_with_marks(network.shown()),
    ensures
        agent.fits(Ok(network.reply(agent.ask()))),
        masks_come_with_marks(network.after(agent.ask()).shown()),
        agent.next(Ok(network.reply(agent.ask()))) is Ok,
        agent.next(Ok(network.reply(agent.ask()))) matches Ok(next) ==> {
            let after = network.after(agent.ask());
            &&& next.is_valid()
            &&& next.has_seen_to(after)
            &&& next is Resting ==> after.is_complete()
            &&& next is AppendingRestoreMark ==> !network.rules.contains(restore_mark_rule())
            &&& next matches AgentView::AppendingMark { interface_index, .. }
                ==> !network.rules.contains(mark_rule(interface_index as nat))
        },
{
    let request = agent.ask();
    let after = network.after(request);
    if let AgentView::InsertingIpRule { interface_index, .. } = agent {
        lemma_installed(network.shown(), interface_index);
        assert(after.shown() =~= network.shown().push(installed(ip_rule(interface_index)).shown));
    }
    assert(forall|i: u32| network.serves(i) ==> #[trigger] after.serves(i));
    match agent {
        AgentView::CheckingMark { interface_index, existing } => {
            assert(existing.contains(interface_index) ==> marked_interfaces(
                network.shown(),
            ).contains(interface_index));
            assert(network.rules.contains(mark_rule(interface_index as nat))
                && existing.contains(interface_index) ==> after.serves(interface_index));
        },
        AgentView::AppendingMark { interface_index, existing } => {
            assert(existing.contains(interface_index) ==> marked_interfaces(
                network.shown(),
            ).contains(interface_index));
            assert(existing.contains(interface_index) ==> after.serves(interface_index));
        },
        AgentView::InsertingIpRule { interface_index, .. } => {
            assert(after.serves(interface_index));
        },
        _ => {},
    }
}

/// A network in which all rules are in place is left as it is.
pub proof fn law_complete_network_is_left_alone(agent: AgentView, network: NetworkView)
    requires
        agent.is_valid(),
        agent.is_quiet(),
        network.is_complete(),
        masks_come_with_marks(network.shown()),
    ensures
        network.after(agent.ask()) == network,
        agent.next(Ok(network.reply(agent.ask()))) matches Ok(next) && next.is_valid()
            && next.is_quiet(),
{
    match agent {
        AgentView::ListingIpRules => {
            assert forall|i: u32| is_secondary(i) implies #[trigger] marked_interfaces(
                network.shown(),
            ).contains(i) by {
                assert(network.serves(i));
            }
        },
        AgentView::CheckingMark { interface_index, existing } => {
            assert(network.serves(interface_index));
            assert(existing.contains(interface_index));
        },
        _ => {},
    }
}

/// A pass ends: once the chain is there, every answer brings the agent closer to its rest.
pub proof fn law_pass_ends(agent: AgentView, answer: Result<AgentReplyView, Error>)
    requires
        agent.is_valid(),
        agent.fits(answer),
        agent.steps_left() > 0,
    ensures
        agent.next(answer) matches Ok(next) ==> {
            &&& 0 <= next.steps_left() < agent.steps_left()
            &&& next.steps_left() == 0 ==> next is Resting
        },
{
}

} // verus!
