//! What the agent makes of the network in one pass.
use crate::agent::{
    installed, ip_rule, mark_rule, marked_interfaces, masks_come_with_marks, restore_mark_rule,
    AgentReplyView, AgentRequestView, AgentView, InstalledRuleView, IpRuleView, NetworkView,
    RuleAttribute,
};
use crate::error::Error;
use crate::search::{is_first, law_first_where, lemma_first_found};
use crate::text::{decimal, numeral};
use vstd::prelude::*;

verus! {

/// Whether a routing rule, as it is listed, is about the packets that carry the mark of an
/// interface: it looks at the lowest four bits, and that is the first mark it names.
pub open spec fn is_for(rule: IpRuleView, interface_index: u32) -> bool {
    &&& rule.attributes.contains(RuleAttribute::FwMask(0xf))
    &&& exists|k: int|
        {
            &&& 0 <= k < rule.attributes.len()
            &&& #[trigger] rule.attributes[k] == RuleAttribute::FwMark(interface_index)
            &&& forall|j: int| 0 <= j < k ==> !(#[trigger] rule.attributes[j] is FwMark)
        }
}

/// Whether a listing holds a rule for an interface.
pub open spec fn shows(rules: Seq<IpRuleView>, interface_index: u32) -> bool {
    exists|k: int| 0 <= k < rules.len() && is_for(#[trigger] rules[k], interface_index)
}

/// Whether every rule that looks at the lowest four bits of the mark names a mark.
pub open spec fn is_readable(rules: Seq<IpRuleView>) -> bool {
    forall|k: int|
        0 <= k < rules.len() && (#[trigger] rules[k]).attributes.contains(
            RuleAttribute::FwMask(0xf),
        ) ==> exists|j: int|
            0 <= j < rules[k].attributes.len() && #[trigger] rules[k].attributes[j] is FwMark
}

/// Whether an installed rule sends the packets with the mark of an interface to that interface's
/// own table.
pub open spec fn routes(rule: InstalledRuleView, interface_index: u32) -> bool {
    &&& rule.shown.attributes == seq![
        RuleAttribute::FwMark(interface_index),
        RuleAttribute::FwMask(0xf),
    ]
    &&& rule.table_id == interface_index + 10
    &&& rule.action == 1
    &&& rule.priority == 200
}

/// Whether one of the rules sends the packets with the mark of an interface to its table.
pub open spec fn is_routed(rules: Seq<InstalledRuleView>, interface_index: u32) -> bool {
    exists|k: int| 0 <= k < rules.len() && routes(#[trigger] rules[k], interface_index)
}

/// Whether one of the rules for the mark of an interface looks up that interface's table.
pub open spec fn has_its_table(rules: Seq<InstalledRuleView>, interface_index: u32) -> bool {
    exists|k: int|
        0 <= k < rules.len() && is_for((#[trigger] rules[k]).shown, interface_index)
            && rules[k].table_id == interface_index + 10
}

/// The text of the rule that restores the mark of a connection.
pub open spec fn restore_text() -> Seq<char> {
    "-i lxc+ -m comment --comment \"cilium: secondary interfaces\" -j CONNMARK --restore-mark --nfmask "@
        + "15"@ + " --ctmask "@ + "15"@
}

/// The text of the rule that marks the connections that come in by an interface.
pub open spec fn mark_text(interface_index: u32) -> Seq<char> {
    "-i eth"@ + decimal(interface_index as nat) + " -m comment --comment \"cilium: eth"@ + decimal(
        interface_index as nat,
    ) + "\" -m addrtype --dst-type UNICAST --limit-iface-in -j CONNMARK --set-xmark 0x"@ + numeral(
        interface_index as nat,
        16,
    ) + "/"@ + "15"@
}

/// Whether a text is the rule that marks what comes in by one of the interfaces from the first up
/// to the one before `end`.
pub open spec fn marks_one_before(text: Seq<char>, end: int) -> bool {
    exists|i: u32| 1 <= i < end && text == #[trigger] mark_text(i)
}

/// The interfaces whose rules are read off a listing.
pub proof fn law_listed_interfaces(rules: Seq<IpRuleView>)
    ensures
        masks_come_with_marks(rules) <==> is_readable(rules),
        forall|i: u32| #[trigger] marked_interfaces(rules).contains(i) <==> shows(rules, i),
{
    let is_mark = |a: RuleAttribute| a is FwMark;
    assert forall|k: int| 0 <= k < rules.len() implies ((#[trigger] rules[k]).mark() is Some
        <==> exists|j: int|
        0 <= j < rules[k].attributes.len() && #[trigger] rules[k].attributes[j] is FwMark) by {
        let attributes = rules[k].attributes;
        law_first_where(attributes, is_mark);
        if exists|j: int| 0 <= j < attributes.len() && #[trigger] attributes[j] is FwMark {
            let j = choose|j: int| 0 <= j < attributes.len() && #[trigger] attributes[j] is FwMark;
            assert(is_mark(attributes[j]));
        }
    }
    assert forall|i: u32| #[trigger] marked_interfaces(rules).contains(i) <==> shows(rules, i) by {
        if shows(rules, i) {
            let k = choose|k: int| 0 <= k < rules.len() && is_for(#[trigger] rules[k], i);
            lemma_mark(rules[k], i);
        }
        if marked_interfaces(rules).contains(i) {
            let k = choose|k: int|
                0 <= k < rules.len() && (#[trigger] rules[k]).is_masked() && rules[k].mark() == Some(
                    i,
                );
            lemma_mark(rules[k], i);
        }
    }
}

proof fn lemma_mark(rule: IpRuleView, i: u32)
    ensures
        is_for(rule, i) <==> rule.is_masked() && rule.mark() == Some(i),
{
    let attributes = rule.attributes;
    let is_mark = |a: RuleAttribute| a is FwMark;
    if is_for(rule, i) {
        let k = choose|k: int|
            {
                &&& 0 <= k < attributes.len()
                &&& #[trigger] attributes[k] == RuleAttribute::FwMark(i)
                &&& forall|j: int| 0 <= j < k ==> !(#[trigger] attributes[j] is FwMark)
            };
        assert(is_first(attributes, is_mark, k));
        lemma_first_found(attributes, is_mark, k);
    }
    if rule.mark() == Some(i) {
        let k = choose|k: int| is_first(attributes, is_mark, k);
        assert(is_first(attributes, is_mark, k));
        assert(attributes[k] == RuleAttribute::FwMark(i));
        assert forall|j: int| 0 <= j < k implies !(#[trigger] attributes[j] is FwMark) by {
            assert(!is_mark(attributes[j]));
        }
    }
}

/// The routing rule that is installed for an interface looks up a table of its own: the rules of
/// two interfaces never look up the same table, nor are they about the same packets.
pub proof fn law_every_interface_has_its_own_table(i: u32, j: u32)
    requires
        1 <= i <= 15,
        1 <= j <= 15,
        i != j,
    ensures
        routes(installed(ip_rule(i)), i),
        is_for(installed(ip_rule(i)).shown, i),
        !is_for(installed(ip_rule(i)).shown, j),
        ip_rule(i).table_id != ip_rule(j).table_id,
{
    lemma_route(i);
    let attributes = installed(ip_rule(i)).shown.attributes;
    assert(attributes[0] == RuleAttribute::FwMark(i));
    assert(attributes[1] == RuleAttribute::FwMask(0xf));
}

proof fn lemma_route(i: u32)
    requires
        1 <= i <= 15,
    ensures
        routes(installed(ip_rule(i)), i),
{
    assert(installed(ip_rule(i)).shown.attributes =~= seq![
        RuleAttribute::FwMark(i),
        RuleAttribute::FwMask(0xf),
    ]);
}

/// The texts of the rules, with the numbers in them written out.
pub proof fn lemma_texts()
    ensures
        restore_mark_rule() == restore_text(),
        forall|i: u32| #[trigger] mark_text(i) == mark_rule(i as nat),
{
    reveal_strlit("15");
    reveal_strlit("0123456789abcdef");
    reveal_with_fuel(numeral, 2);
    assert(decimal(15) =~= "15"@);
}

/// Where the agent and the network are after some requests, each answered by the network.
pub open spec fn pass(agent: AgentView, network: NetworkView, requests: nat) -> (
    AgentView,
    NetworkView,
)
    decreases requests,
{
    if requests == 0 {
        (agent, network)
    } else {
        match agent.next(Ok(network.reply(agent.ask()))) {
            Ok(next) => pass(next, network.after(agent.ask()), (requests - 1) as nat),
            Err(_) => (agent, network),
        }
    }
}

/// Up to which interface the agent has seen to the marking rules.
spec fn marked_up_to(agent: AgentView) -> int {
    match agent {
        AgentView::CheckingMark { interface_index, .. } => interface_index as int,
        AgentView::AppendingMark { interface_index, .. } => interface_index as int,
        AgentView::InsertingIpRule { interface_index, .. } => interface_index + 1,
        AgentView::Resting => 16,
        _ => 1,
    }
}

/// Up to which interface the agent has seen to the routing rules.
spec fn routed_up_to(agent: AgentView) -> int {
    match agent {
        AgentView::CheckingMark { interface_index, .. } => interface_index as int,
        AgentView::AppendingMark { interface_index, .. } => interface_index as int,
        AgentView::InsertingIpRule { interface_index, .. } => interface_index as int,
        AgentView::Resting => 16,
        _ => 1,
    }
}

/// Whether the agent has seen to the rule that restores marks.
spec fn has_restored(agent: AgentView) -> bool {
    match agent {
        AgentView::LookingForChain => false,
        AgentView::WaitingForChain => false,
        AgentView::CheckingRestoreMark => false,
        AgentView::AppendingRestoreMark => false,
        _ => true,
    }
}

/// Whether the agent knows which interfaces had a routing rule when the pass began.
spec fn remembers(agent: AgentView, first: NetworkView) -> bool {
    match agent {
        AgentView::CheckingMark { existing, .. } => existing == marked_interfaces(first.shown()),
        AgentView::AppendingMark { existing, .. } => existing == marked_interfaces(first.shown()),
        AgentView::InsertingIpRule { interface_index, existing } => existing == marked_interfaces(
            first.shown(),
        ) && !existing.contains(interface_index),
        _ => true,
    }
}

spec fn adds_routes(first: NetworkView, now: NetworkView, end: int) -> bool {
    &&& now.ip_rules.len() >= first.ip_rules.len()
    &&& forall|k: int|
        0 <= k < first.ip_rules.len() ==> #[trigger] now.ip_rules[k] == first.ip_rules[k]
    &&& forall|k: int|
        first.ip_rules.len() <= k < now.ip_rules.len() ==> is_new_route(
            first,
            #[trigger] now.ip_rules[k],
            end,
        )
    &&& forall|i: u32|
        1 <= i < end ==> #[trigger] shows(first.shown(), i) || is_routed(now.ip_rules, i)
}

/// Whether a rule routes the packets of an interface before `end` that had no rule.
pub open spec fn is_new_route(first: NetworkView, rule: InstalledRuleView, end: int) -> bool {
    exists|i: u32| 1 <= i < end && #[trigger] routes(rule, i) && !shows(first.shown(), i)
}

spec fn adds_marks(first: NetworkView, now: NetworkView, restored: bool, end: int) -> bool {
    forall|text: Seq<char>| #[trigger]
        now.rules.contains(text) <==> first.rules.contains(text) || (restored && text
            == restore_text()) || marks_one_before(text, end)
}

spec fn is_under_way(agent: AgentView, first: NetworkView, now: NetworkView) -> bool {
    &&& agent.is_valid()
    &&& !(agent is WaitingForChain)
    &&& agent.steps_left() == 0 ==> agent is LookingForChain || agent is Resting
    &&& now.chain_exists
    &&& remembers(agent, first)
    &&& adds_routes(first, now, routed_up_to(agent))
    &&& adds_marks(first, now, has_restored(agent), marked_up_to(agent))
    &&& routed_up_to(agent) == 1 && !(agent is CheckingMark) && !(agent is AppendingMark) && !(
    agent is InsertingIpRule) ==> now.ip_rules == first.ip_rules
}

proof fn lemma_marks_grow(first: NetworkView, now: NetworkView, i: u32, after: NetworkView)
    requires
        1 <= i <= 15,
        adds_marks(first, now, true, i as int),
        after.rules == now.rules.insert(mark_rule(i as nat)),
    ensures
        adds_marks(first, after, true, i + 1),
{
    lemma_texts();
    assert(mark_text(i) == mark_rule(i as nat));
    assert forall|text: Seq<char>| #[trigger]
        after.rules.contains(text) <==> first.rules.contains(text) || text == restore_text()
            || marks_one_before(text, i + 1) by {
        assert(now.rules.contains(text) <==> first.rules.contains(text) || text == restore_text()
            || marks_one_before(text, i as int));
        if marks_one_before(text, i + 1) {
            let k = choose|k: u32| 1 <= k < i + 1 && text == #[trigger] mark_text(k);
            if k < i {
                assert(marks_one_before(text, i as int));
            }
        }
        if marks_one_before(text, i as int) {
            let k = choose|k: u32| 1 <= k < i && text == #[trigger] mark_text(k);
            assert(1 <= k < i + 1 && text == mark_text(k));
        }
        if text == mark_text(i) {
            assert(marks_one_before(text, i + 1));
        }
    }
}

proof fn lemma_routes_grow(first: NetworkView, now: NetworkView, i: u32, after: NetworkView)
    requires
        1 <= i <= 15,
        adds_routes(first, now, i as int),
        shows(first.shown(), i) ==> after.ip_rules == now.ip_rules,
        !shows(first.shown(), i) ==> after.ip_rules == now.ip_rules.push(installed(ip_rule(i))),
    ensures
        adds_routes(first, after, i + 1),
{
    lemma_route(i);
    assert forall|k: int|
        first.ip_rules.len() <= k < after.ip_rules.len() implies is_new_route(
        first,
        #[trigger] after.ip_rules[k],
        i + 1,
    ) by {
        if k < now.ip_rules.len() {
            assert(after.ip_rules[k] == now.ip_rules[k]);
            let j = choose|j: u32|
                1 <= j < i && #[trigger] routes(now.ip_rules[k], j) && !shows(first.shown(), j);
            assert(routes(after.ip_rules[k], j));
        } else {
            assert(routes(after.ip_rules[k], i));
        }
    }
    assert forall|j: u32| 1 <= j < i + 1 implies #[trigger] shows(first.shown(), j) || is_routed(
        after.ip_rules,
        j,
    ) by {
        if j < i {
            if is_routed(now.ip_rules, j) {
                let k = choose|k: int|
                    0 <= k < now.ip_rules.len() && routes(#[trigger] now.ip_rules[k], j);
                assert(after.ip_rules[k] == now.ip_rules[k]);
            }
        } else if !shows(first.shown(), i) {
            assert(routes(after.ip_rules[now.ip_rules.len() as int], i));
        }
    }
}

proof fn lemma_step(agent: AgentView, first: NetworkView, now: NetworkView)
    requires
        is_under_way(agent, first, now),
        is_readable(first.shown()),
        !(agent is Resting),
    ensures
        agent.next(Ok(now.reply(agent.ask()))) matches Ok(next) && is_under_way(
            next,
            first,
            now.after(agent.ask()),
        ) && (next.steps_left() < agent.steps_left() || (agent is LookingForChain
            && next is CheckingRestoreMark)),
{
    lemma_texts();
    law_listed_interfaces(first.shown());
    let after = now.after(agent.ask());
    match agent {
        AgentView::CheckingMark { interface_index, existing } => {
            assert(mark_text(interface_index) == mark_rule(interface_index as nat));
            if now.rules.contains(mark_rule(interface_index as nat)) {
                assert(now.rules.insert(mark_rule(interface_index as nat)) =~= now.rules);
                lemma_marks_grow(first, now, interface_index, after);
                if existing.contains(interface_index) {
                    lemma_routes_grow(first, now, interface_index, after);
                }
            }
        },
        AgentView::AppendingMark { interface_index, existing } => {
            lemma_marks_grow(first, now, interface_index, after);
            if existing.contains(interface_index) {
                lemma_routes_grow(first, now, interface_index, after);
            }
        },
        AgentView::InsertingIpRule { interface_index, existing } => {
            lemma_routes_grow(first, now, interface_index, after);
        },
        _ => {},
    }
}

proof fn lemma_pass(agent: AgentView, first: NetworkView, now: NetworkView) -> (requests: nat)
    requires
        is_under_way(agent, first, now),
        is_readable(first.shown()),
        !(agent is LookingForChain),
    ensures
        pass(agent, now, requests).0 is Resting,
        is_under_way(AgentView::Resting, first, pass(agent, now, requests).1),
    decreases agent.steps_left(),
{
    if agent is Resting {
        0
    } else {
        lemma_step(agent, first, now);
        let next = agent.next(Ok(now.reply(agent.ask())))->Ok_0;
        let more = lemma_pass(next, first, now.after(agent.ask()));
        more + 1
    }
}

/// A pass of the agent over a network with the chain comes to its end, and then holds of each
/// secondary interface: packets with its mark look up the interface's own table, unless a rule for
/// its mark was there before. What was there stays; nothing is installed for an interface that had
/// a rule, and nothing else is installed. The chain then holds the rule that restores marks and the
/// marking rule of every secondary interface, besides what it held before.
pub proof fn law_a_pass_routes_every_interface(network: NetworkView) -> (requests: nat)
    requires
        network.chain_exists,
        is_readable(network.shown()),
    ensures
        ({
            let (agent, after) = pass(AgentView::LookingForChain, network, requests);
            let before = network.ip_rules;
            &&& agent is Resting
            &&& after.ip_rules.len() >= before.len()
            &&& forall|k: int| 0 <= k < before.len() ==> #[trigger] after.ip_rules[k] == before[k]
            &&& forall|k: int|
                before.len() <= k < after.ip_rules.len() ==> is_new_route(
                    network,
                    #[trigger] after.ip_rules[k],
                    16,
                )
            &&& forall|i: u32|
                1 <= i <= 15 && !shows(network.shown(), i) ==> #[trigger] is_routed(
                    after.ip_rules,
                    i,
                )
            &&& forall|text: Seq<char>| #[trigger]
                after.rules.contains(text) <==> network.rules.contains(text) || text
                    == restore_text() || marks_one_before(text, 16)
        }),
{
    let agent = AgentView::LookingForChain;
    assert(adds_marks(network, network, false, 1));
    assert(is_under_way(agent, network, network));
    lemma_step(agent, network, network);
    let next = agent.next(Ok(network.reply(agent.ask())))->Ok_0;
    let more = lemma_pass(next, network, network.after(agent.ask()));
    let after = pass(next, network.after(agent.ask()), more).1;
    assert forall|i: u32| 1 <= i <= 15 && !shows(network.shown(), i) implies #[trigger] is_routed(
        after.ip_rules,
        i,
    ) by {
        assert(shows(network.shown(), i) || is_routed(after.ip_rules, i));
    }
    more + 1
}

/// Where every rule for the mark of an interface looks up that interface's table, a pass leaves the
/// network with such a rule for each secondary interface, and with no rule for its mark that looks
/// up another table. A network without rules for these marks is such a one.
pub proof fn law_a_pass_keeps_the_tables_apart(network: NetworkView) -> (requests: nat)
    requires
        network.chain_exists,
        is_readable(network.shown()),
        forall|k: int, i: u32|
            0 <= k < network.ip_rules.len() && 1 <= i <= 15 && #[trigger] is_for(
                network.ip_rules[k].shown,
                i,
            ) ==> network.ip_rules[k].table_id == i + 10,
    ensures
        ({
            let (agent, after) = pass(AgentView::LookingForChain, network, requests);
            &&& agent is Resting
            &&& forall|i: u32| 1 <= i <= 15 ==> #[trigger] has_its_table(after.ip_rules, i)
            &&& forall|k: int, i: u32|
                0 <= k < after.ip_rules.len() && 1 <= i <= 15 && #[trigger] is_for(
                    after.ip_rules[k].shown,
                    i,
                ) ==> after.ip_rules[k].table_id == i + 10
        }),
{
    let requests = law_a_pass_routes_every_interface(network);
    let (agent, after) = pass(AgentView::LookingForChain, network, requests);
    assert forall|i: u32| 1 <= i <= 15 implies #[trigger] has_its_table(after.ip_rules, i) by {
        if shows(network.shown(), i) {
            let k = choose|k: int|
                0 <= k < network.shown().len() && is_for(#[trigger] network.shown()[k], i);
            assert(network.shown()[k] == network.ip_rules[k].shown);
            assert(after.ip_rules[k] == network.ip_rules[k]);
            assert(is_for(after.ip_rules[k].shown, i));
        } else {
            assert(is_routed(after.ip_rules, i));
            let k = choose|k: int|
                0 <= k < after.ip_rules.len() && routes(#[trigger] after.ip_rules[k], i);
            lemma_route_is_for(after.ip_rules[k], i, i);
            assert(is_for(after.ip_rules[k].shown, i));
        }
    }
    assert forall|k: int, i: u32|
        0 <= k < after.ip_rules.len() && 1 <= i <= 15 && #[trigger] is_for(
            after.ip_rules[k].shown,
            i,
        ) implies after.ip_rules[k].table_id == i + 10 by {
        if k < network.ip_rules.len() {
            assert(after.ip_rules[k] == network.ip_rules[k]);
            assert(is_for(network.ip_rules[k].shown, i));
        } else {
            assert(is_new_route(network, after.ip_rules[k], 16));
            let j = choose|j: u32|
                1 <= j < 16 && #[trigger] routes(after.ip_rules[k], j) && !shows(
                    network.shown(),
                    j,
                );
            lemma_route_is_for(after.ip_rules[k], j, i);
        }
    }
    requests
}

proof fn lemma_route_is_for(rule: InstalledRuleView, i: u32, j: u32)
    requires
        routes(rule, i),
    ensures
        is_for(rule.shown, j) <==> i == j,
{
    let attributes = rule.shown.attributes;
    assert(attributes[0] == RuleAttribute::FwMark(i));
    assert(attributes[1] == RuleAttribute::FwMask(0xf));
    assert(attributes.contains(RuleAttribute::FwMask(0xf)));
}

/// The agent goes on from every reply of the right kind, and from a failure to list the routing
/// rules; but a rule that looks at the lowest four bits of the mark has to name a mark. What
/// follows a failure is that very failure.
pub proof fn law_answers_to_the_agent(agent: AgentView, reply: AgentReplyView, e: Error)
    ensures
        agent.fits(Ok(reply)) <==> (match agent.ask() {
            AgentRequestView::ChainExists { .. } => reply is Present,
            AgentRequestView::RuleExists { .. } => reply is Present,
            AgentRequestView::AppendRule { .. } => reply is Done,
            AgentRequestView::AddIpRule { .. } => reply is Done,
            AgentRequestView::Sleep { .. } => reply is Done,
            AgentRequestView::ListIpRules => reply is IpRules && is_readable(reply->IpRules_0),
        }),
        agent.fits(Err(e)) <==> agent.ask() is ListIpRules,
        agent.fits(Err(e)) ==> agent.next(Err(e)) == Err::<AgentView, Error>(e),
{
    if let AgentReplyView::IpRules(rules) = reply {
        law_listed_interfaces(rules);
    }
}

/// The agent looks for the chain every second until it is there, and after a pass it rests for a
/// second and looks again.
pub proof fn law_agent_looks_every_second()
    ensures
        AgentView::LookingForChain.ask() == (AgentRequestView::ChainExists {
            table: "mangle"@,
            chain: "CILIUM_PRE_mangle"@,
        }),
        AgentView::LookingForChain.next(Ok(AgentReplyView::Present(false))) == Ok::<
            AgentView,
            Error,
        >(AgentView::WaitingForChain),
        AgentView::WaitingForChain.ask() == (AgentRequestView::Sleep { secs: 1 }),
        AgentView::WaitingForChain.next(Ok(AgentReplyView::Done)) == Ok::<AgentView, Error>(
            AgentView::LookingForChain,
        ),
        AgentView::Resting.ask() == (AgentRequestView::Sleep { secs: 1 }),
        AgentView::Resting.next(Ok(AgentReplyView::Done)) == Ok::<AgentView, Error>(
            AgentView::LookingForChain,
        ),
{
}

} // verus!
