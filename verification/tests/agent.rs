use eip_operator::agent::{
    do_masks_come_with_marks, get_eni_indexes_for_existing_ip_rules, mark_iptables_rule,
    new_ip_rule, restore_mark_iptables_rule, Agent, AgentReply, AgentRequest, IpRule,
    RuleAttribute,
};
use eip_operator::error::Error;

const RESTORE: &str = "-i lxc+ -m comment --comment \"cilium: secondary interfaces\" \
     -j CONNMARK --restore-mark --nfmask 15 --ctmask 15";

fn rule(attributes: Vec<RuleAttribute>) -> IpRule {
    IpRule { attributes }
}

fn marked(mark: u32) -> IpRule {
    rule(vec![RuleAttribute::Other, RuleAttribute::FwMark(mark), RuleAttribute::FwMask(15)])
}

#[test]
fn marking_rules_are_written_out() {
    assert_eq!(restore_mark_iptables_rule(), RESTORE);
    assert_eq!(
        mark_iptables_rule(1),
        "-i eth1 -m comment --comment \"cilium: eth1\" -m addrtype --dst-type UNICAST \
         --limit-iface-in -j CONNMARK --set-xmark 0x1/15"
    );
    assert_eq!(
        mark_iptables_rule(12),
        "-i eth12 -m comment --comment \"cilium: eth12\" -m addrtype --dst-type UNICAST \
         --limit-iface-in -j CONNMARK --set-xmark 0xc/15"
    );
}

#[test]
fn routing_rules_look_up_the_table_of_the_interface() {
    let r = new_ip_rule(3);
    assert_eq!(r.table_id, 13);
    assert_eq!(r.action, 1);
    assert_eq!(r.priority, 200);
    assert_eq!(r.fw_mark, 3);
    assert_eq!(r.fw_mask, 15);
}

#[test]
fn installed_rules_are_known_by_their_marks() {
    let rules = vec![
        marked(3),
        rule(vec![RuleAttribute::FwMark(4), RuleAttribute::FwMask(255)]),
        rule(vec![RuleAttribute::FwMark(5)]),
        rule(vec![
            RuleAttribute::FwMask(15),
            RuleAttribute::FwMark(6),
            RuleAttribute::FwMark(7),
        ]),
        marked(3),
    ];
    assert!(do_masks_come_with_marks(&rules));
    let indexes = get_eni_indexes_for_existing_ip_rules(&rules);
    assert_eq!(indexes.len(), 2);
    assert!(indexes.contains(&3) && indexes.contains(&6));
    assert!(!do_masks_come_with_marks(&vec![rule(vec![RuleAttribute::FwMask(15)])]));
}

struct Network {
    chain_exists: bool,
    rules: Vec<String>,
    ip_rules: Vec<u32>,
    changes: usize,
}

impl Network {
    fn answer(&mut self, request: AgentRequest) -> AgentReply {
        match request {
            AgentRequest::ChainExists { table, chain } => {
                assert_eq!(table, "mangle");
                assert_eq!(chain, "CILIUM_PRE_mangle");
                AgentReply::Present(self.chain_exists)
            }
            AgentRequest::RuleExists { rule, .. } => {
                AgentReply::Present(self.rules.contains(&rule))
            }
            AgentRequest::AppendRule { rule, .. } => {
                self.rules.push(rule);
                self.changes += 1;
                AgentReply::Done
            }
            AgentRequest::ListIpRules => {
                AgentReply::IpRules(self.ip_rules.iter().map(|m| marked(*m)).collect())
            }
            AgentRequest::AddIpRule { rule } => {
                self.ip_rules.push(rule.fw_mark);
                self.changes += 1;
                AgentReply::Done
            }
            AgentRequest::Sleep { secs } => {
                assert_eq!(secs, 1);
                self.chain_exists = true;
                AgentReply::Done
            }
        }
    }

    /// Runs the agent up to and including its next rest, and counts its requests.
    fn pass(&mut self, agent: Agent) -> (Agent, usize) {
        let mut agent = agent;
        let mut requests = 0;
        let mut listed = false;
        loop {
            let request = agent.request();
            requests += 1;
            listed = listed || matches!(request, AgentRequest::ListIpRules);
            let rests = listed && matches!(request, AgentRequest::Sleep { .. });
            let answer = Ok(self.answer(request));
            assert!(agent.accepts(&answer));
            agent = agent.resume(answer).unwrap();
            if rests {
                return (agent, requests);
            }
        }
    }
}

#[test]
fn a_pass_puts_everything_in_place_and_the_next_one_changes_nothing() {
    let mut network = Network {
        chain_exists: false,
        rules: vec![mark_iptables_rule(2)],
        ip_rules: vec![4],
        changes: 0,
    };
    let (agent, requests) = network.pass(Agent::start());
    assert_eq!(requests, 3 + 2 + 1 + 15 + 14 + 14 + 1);
    assert!(network.rules.contains(&RESTORE.to_owned()));
    for i in 1..=15 {
        assert!(network.rules.contains(&mark_iptables_rule(i)));
        assert!(network.ip_rules.contains(&i));
    }
    assert_eq!(network.changes, 1 + 14 + 14);
    let (_, requests) = network.pass(agent);
    assert_eq!(requests, 1 + 1 + 1 + 15 + 1);
    assert_eq!(network.changes, 1 + 14 + 14);
}

#[test]
fn only_a_failure_to_list_rules_ends_the_agent() {
    let failure = || Err(Error::RtNetlink { source: "no".to_owned() });
    let agent = Agent::start();
    assert!(!agent.accepts(&failure()));
    assert!(!agent.accepts(&Ok(AgentReply::Done)));
    let agent = agent.resume(Ok(AgentReply::Present(true))).unwrap();
    assert!(!agent.accepts(&failure()));
    let agent = agent.resume(Ok(AgentReply::Present(true))).unwrap();
    assert!(agent.accepts(&failure()));
    assert!(!agent.accepts(&Ok(AgentReply::IpRules(vec![rule(vec![
        RuleAttribute::FwMask(15)
    ])]))));
    assert!(matches!(agent.resume(failure()), Err(Error::RtNetlink { .. })));
}
