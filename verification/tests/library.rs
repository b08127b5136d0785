use iptables::error::IPTError;
use iptables::text::dec_string_i32;
use iptables::tool::{parse_chain_names, parse_list, ToolKind};
use iptables::version::{parse_version, supports_check, supports_wait, ProbeError, Version};

fn v(major: u32, minor: u32, patch: u32) -> Version {
    Version { major, minor, patch }
}

fn handle(has_check: bool, has_wait: bool) -> iptables::tool::IPTables {
    iptables::tool::IPTables { cmd: ToolKind::IPv4, has_check, has_wait }
}

fn args_of(inv: &iptables::tool::Invocation) -> Vec<&str> {
    inv.args.iter().map(|s| s.as_str()).collect()
}

#[test]
fn parses_plain_version() {
    assert_eq!(parse_version("iptables v1.4.21"), Ok(v(1, 4, 21)));
}

#[test]
fn parses_version_with_noise_around() {
    assert_eq!(parse_version("ip6tables v1.8.7 (legacy)"), Ok(v(1, 8, 7)));
}

#[test]
fn takes_the_leftmost_match() {
    assert_eq!(parse_version("v1.2.3 and then v4.5.6"), Ok(v(1, 2, 3)));
}

#[test]
fn malformed_text_gives_no_version_match() {
    assert_eq!(parse_version("no version here"), Err(ProbeError::NoVersionMatch));
}

#[test]
fn incomplete_triple_gives_no_version_match() {
    assert_eq!(parse_version("iptables v1.4"), Err(ProbeError::NoVersionMatch));
    assert_eq!(parse_version("v1.4. hello"), Err(ProbeError::NoVersionMatch));
    assert_eq!(parse_version("v.1.4.2"), Err(ProbeError::NoVersionMatch));
}

#[test]
fn oversized_component_is_malformed() {
    assert_eq!(parse_version("v99999999999.1.2"), Err(ProbeError::MalformedVersion));
}

#[test]
fn capability_thresholds_are_exact() {
    assert!(!supports_check(&v(1, 4, 10)));
    assert!(!supports_wait(&v(1, 4, 10)));
    assert!(supports_check(&v(1, 4, 11)));
    assert!(!supports_wait(&v(1, 4, 11)));
    assert!(supports_check(&v(1, 4, 19)));
    assert!(!supports_wait(&v(1, 4, 19)));
    assert!(supports_check(&v(1, 4, 20)));
    assert!(supports_wait(&v(1, 4, 20)));
    assert!(supports_check(&v(2, 0, 0)));
    assert!(supports_wait(&v(2, 0, 0)));
    assert!(supports_check(&v(1, 5, 0)));
    assert!(supports_wait(&v(1, 5, 0)));
}

#[test]
fn new_derives_the_capability_record() {
    let h = iptables::new(false, "iptables v1.4.21").unwrap();
    assert_eq!(h.cmd, ToolKind::IPv4);
    assert!(h.has_check);
    assert!(h.has_wait);
    assert_eq!(h.cmd.name(), "iptables");

    let h6 = iptables::new(true, "ip6tables v1.4.7").unwrap();
    assert_eq!(h6.cmd, ToolKind::IPv6);
    assert!(!h6.has_check);
    assert!(!h6.has_wait);
    assert_eq!(h6.cmd.name(), "ip6tables");
}

#[test]
fn probe_failure_produces_no_record() {
    assert_eq!(iptables::new(false, "no version here"), Err(ProbeError::NoVersionMatch));
}

#[test]
fn decimal_strings() {
    assert_eq!(dec_string_i32(0).as_str(), "0");
    assert_eq!(dec_string_i32(3).as_str(), "3");
    assert_eq!(dec_string_i32(-5).as_str(), "-5");
    assert_eq!(dec_string_i32(2147483647).as_str(), "2147483647");
    assert_eq!(dec_string_i32(-2147483648).as_str(), "-2147483648");
}

#[test]
fn insert_builds_the_exact_argument_vector() {
    let h = handle(true, true);
    let inv = h.insert("filter", "INPUT", "-p tcp -j ACCEPT", 3);
    assert_eq!(inv.cmd, ToolKind::IPv4);
    assert_eq!(
        args_of(&inv),
        vec!["-t", "filter", "-I", "INPUT", "3", "-p", "tcp", "-j", "ACCEPT"]
    );
}

#[test]
fn replace_builds_the_exact_argument_vector() {
    let h = handle(true, true);
    let inv = h.replace("nat", "PREROUTING", "-j DNAT", 1);
    assert_eq!(args_of(&inv), vec!["-t", "nat", "-R", "PREROUTING", "1", "-j", "DNAT"]);
}

#[test]
fn append_and_delete_build_the_exact_argument_vectors() {
    let h = handle(true, true);
    assert_eq!(
        args_of(&h.append("filter", "FWD", "-j DROP")),
        vec!["-t", "filter", "-A", "FWD", "-j", "DROP"]
    );
    assert_eq!(
        args_of(&h.delete("filter", "FWD", "-j DROP")),
        vec!["-t", "filter", "-D", "FWD", "-j", "DROP"]
    );
}

#[test]
fn rule_exists_uses_the_check_flag_when_available() {
    let h = handle(true, false);
    assert_eq!(
        args_of(&h.rule_exists("filter", "INPUT", "-p udp")),
        vec!["-t", "filter", "-C", "INPUT", "-p", "udp"]
    );
}

#[test]
fn rule_exists_falls_back_to_a_full_listing() {
    let h = handle(false, false);
    assert_eq!(args_of(&h.rule_exists("filter", "INPUT", "-p udp")), vec!["-t", "filter", "-S"]);
}

#[test]
fn exists_result_reads_the_listing_without_the_check_flag() {
    let h = handle(false, false);
    let listing = "-P INPUT ACCEPT\n-A INPUT -p tcp -j ACCEPT\n";
    assert!(h.exists_result("INPUT", "-p tcp -j ACCEPT", false, listing));
    assert!(!h.exists_result("INPUT", "-p udp -j ACCEPT", false, listing));
    let hc = handle(true, false);
    assert!(hc.exists_result("INPUT", "-p tcp -j ACCEPT", true, ""));
    assert!(!hc.exists_result("INPUT", "-p tcp -j ACCEPT", false, listing));
}

#[test]
fn exists_old_version_searches_for_the_appended_rule() {
    let h = handle(false, false);
    assert!(h.exists_old_version("FWD", "-j DROP", "x\n-A FWD -j DROP\ny"));
    assert!(!h.exists_old_version("FWD", "-j DROP", "-A FWDX -j DROP"));
    assert!(!h.exists_old_version("FWD", "-j DROP", ""));
}

#[test]
fn insert_unique_refuses_an_existing_rule() {
    let h = handle(true, true);
    match h.insert_unique("filter", "INPUT", "-p tcp", 2, true) {
        Err(IPTError::Other(m)) => assert_eq!(m, "the rule exists in the table/chain"),
        other => panic!("expected the domain refusal, got {:?}", other),
    }
    let inv = h.insert_unique("filter", "INPUT", "-p tcp", 2, false).unwrap();
    assert_eq!(args_of(&inv), vec!["-t", "filter", "-I", "INPUT", "2", "-p", "tcp"]);
}

#[test]
fn append_unique_refuses_an_existing_rule() {
    let h = handle(true, true);
    assert!(h.append_unique("filter", "INPUT", "-p tcp", true).is_err());
    let inv = h.append_unique("filter", "INPUT", "-p tcp", false).unwrap();
    assert_eq!(args_of(&inv), vec!["-t", "filter", "-A", "INPUT", "-p", "tcp"]);
}

#[test]
fn append_replace_deletes_first_only_when_present() {
    let h = handle(true, true);
    let (first, second) = h.append_replace("filter", "INPUT", "-p tcp", true);
    assert_eq!(args_of(&first.unwrap()), vec!["-t", "filter", "-D", "INPUT", "-p", "tcp"]);
    assert_eq!(args_of(&second), vec!["-t", "filter", "-A", "INPUT", "-p", "tcp"]);
    let (none, second) = h.append_replace("filter", "INPUT", "-p tcp", false);
    assert!(none.is_none());
    assert_eq!(args_of(&second), vec!["-t", "filter", "-A", "INPUT", "-p", "tcp"]);
}

#[test]
fn delete_all_keeps_deleting_while_the_rule_remains() {
    let h = handle(true, true);
    let inv = h.delete_all("filter", "INPUT", "-p tcp", true).unwrap();
    assert_eq!(args_of(&inv), vec!["-t", "filter", "-D", "INPUT", "-p", "tcp"]);
    assert!(h.delete_all("filter", "INPUT", "-p tcp", false).is_none());
}

#[test]
fn listing_invocations() {
    let h = handle(true, true);
    assert_eq!(args_of(&h.list("filter", "INPUT")), vec!["-t", "filter", "-S", "INPUT"]);
    assert_eq!(args_of(&h.list_table("nat")), vec!["-t", "nat", "-S"]);
    assert_eq!(args_of(&h.list_chains("mangle")), vec!["-t", "mangle", "-S"]);
}

#[test]
fn chain_management_invocations() {
    let h = handle(true, true);
    assert_eq!(args_of(&h.new_chain("filter", "MINE")), vec!["-t", "filter", "-N", "MINE"]);
    assert_eq!(args_of(&h.flush_chain("filter", "MINE")), vec!["-t", "filter", "-F", "MINE"]);
    assert_eq!(
        args_of(&h.rename_chain("filter", "MINE", "YOURS")),
        vec!["-t", "filter", "-E", "MINE", "YOURS"]
    );
    assert_eq!(args_of(&h.delete_chain("filter", "MINE")), vec!["-t", "filter", "-X", "MINE"]);
    assert_eq!(args_of(&h.flush_table("filter")), vec!["-t", "filter", "-F"]);
}

#[test]
fn parse_list_splits_the_trimmed_listing_into_lines() {
    let out = parse_list("  -P INPUT ACCEPT\n-A INPUT -j ACCEPT\n");
    assert_eq!(out, vec!["-P INPUT ACCEPT".to_string(), "-A INPUT -j ACCEPT".to_string()]);
    assert_eq!(parse_list("\n \t"), vec![String::new()]);
}

#[test]
fn parse_chain_names_reads_policy_and_declaration_lines() {
    let listing = "-P INPUT ACCEPT\n-P FORWARD DROP\n-N MINE\n-A MINE -j ACCEPT\nnoise\n";
    assert_eq!(
        parse_chain_names(listing),
        vec!["INPUT".to_string(), "FORWARD".to_string(), "MINE".to_string()]
    );
    assert_eq!(parse_chain_names("-A X -j DROP"), Vec::<String>::new());
}

#[test]
fn empty_rule_still_yields_one_empty_argument() {
    let h = handle(true, true);
    assert_eq!(args_of(&h.append("filter", "X", "")), vec!["-t", "filter", "-A", "X", ""]);
}

#[test]
fn rule_with_doubled_spaces_keeps_empty_pieces() {
    let h = handle(true, true);
    assert_eq!(
        args_of(&h.append("filter", "X", "-p  tcp")),
        vec!["-t", "filter", "-A", "X", "-p", "", "tcp"]
    );
}

#[test]
fn listing_trim_removes_all_unicode_whitespace() {
    let out = parse_list("\u{0C}-P INPUT ACCEPT\n-A INPUT -j ACCEPT\u{0B}\u{A0}\u{2028}");
    assert_eq!(out, vec!["-P INPUT ACCEPT".to_string(), "-A INPUT -j ACCEPT".to_string()]);
    assert_eq!(parse_list("\u{3000}\u{2000}\u{85}"), vec![String::new()]);
}

#[test]
fn empty_listing_yields_one_empty_line() {
    assert_eq!(parse_list(""), vec![String::new()]);
}
