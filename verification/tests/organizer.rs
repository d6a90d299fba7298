use camloc::hosts::{HostInfo, HostState, HostType};
use camloc::organizer::{asks_for_more, hosts_offered, is_offered, server_needs_start, start_plan, HostAction, StartPlan};
use camloc::organizer::{can_stop, find_server, get_server, mark_unreached, record_reply, remove_host, GetServerError, Host};

fn info(t: HostType, s: HostState) -> HostInfo {
    HostInfo { host_type: t, host_state: s }
}

#[test]
fn lookup_selects_reachable_servers() {
    let idle = Host::new(info(HostType::Client { calibrated: false }, HostState::Idle), 1);
    let server = Host::new(info(HostType::Server, HostState::Running), 2);
    let phone = Host::new(info(HostType::ConfiglessClient, HostState::Idle), 3);
    let idle_server = Host::new(info(HostType::Server, HostState::Idle), 4);
    let gone = Host::new(info(HostType::Server, HostState::Unreachable), 5);
    assert_eq!(get_server(&[]), Err(GetServerError::NoServer));
    assert_eq!(get_server(&[idle, phone, gone]), Err(GetServerError::NoServer));
    assert_eq!(get_server(&[idle, server, phone]).map(|h| h.ip()), Ok(2));
    assert_eq!(get_server(&[gone, idle_server]).map(|h| h.ip()), Ok(4));
    assert_eq!(get_server(&[server, idle, idle_server]), Err(GetServerError::Multiple(2)));
    assert_eq!(get_server(&[server, idle_server, server]), Err(GetServerError::Multiple(3)));
}

#[test]
fn find_server_counts_live_servers() {
    let s = info(HostType::Server, HostState::Idle);
    let gone = info(HostType::Server, HostState::Unreachable);
    let c = info(HostType::Client { calibrated: true }, HostState::Running);
    assert_eq!(find_server(&[c, s]), Ok(1));
    assert_eq!(find_server(&[c, gone]), Err(0));
    assert_eq!(find_server(&[s, s]), Err(1));
    assert_eq!(find_server(&[s, s, s]), Err(2));
}

#[test]
fn scan_updates_and_adds_hosts() {
    let a = Host::new(info(HostType::Server, HostState::Idle), 10);
    let b = Host::new(info(HostType::ConfiglessClient, HostState::Idle), 20);
    let mut hosts = vec![a, b];
    let mut hit = vec![false; 2];
    record_reply(&mut hosts, &mut hit, 10, 0xe0);
    record_reply(&mut hosts, &mut hit, 30, 0x70);
    record_reply(&mut hosts, &mut hit, 30, 0x70);
    record_reply(&mut hosts, &mut hit, 40, 0x00);
    assert_eq!(hit, vec![true, false]);
    assert_eq!(hosts.len(), 4);
    assert_eq!(hosts[0].info(), info(HostType::Server, HostState::Running));
    assert_eq!(hosts[2].ip(), 30);
    mark_unreached(&mut hosts, &hit);
    assert_eq!(hosts[1].info(), info(HostType::ConfiglessClient, HostState::Unreachable));
    assert_eq!(hosts[0].info().host_state, HostState::Running);
    assert_eq!(hosts[3].info(), info(HostType::Client { calibrated: true }, HostState::Running));
}

#[test]
fn stop_only_running_hosts() {
    let r = Host::new(info(HostType::Client { calibrated: true }, HostState::Running), 5);
    let i = Host::new(info(HostType::Client { calibrated: true }, HostState::Idle), 6);
    assert!(can_stop(&r));
    assert!(!can_stop(&i));
    let mut hosts = vec![i, r, r];
    assert_eq!(remove_host(&mut hosts, r), 1);
    assert_eq!(hosts, vec![i, r]);
}

#[test]
fn start_plan_follows_host_type() {
    assert_eq!(start_plan(info(HostType::Server, HostState::Idle)), StartPlan::StartServer);
    assert_eq!(start_plan(info(HostType::Client { calibrated: false }, HostState::Idle)), StartPlan::Calibrate);
    assert_eq!(start_plan(info(HostType::Client { calibrated: true }, HostState::Idle)), StartPlan::Stream);
    assert_eq!(start_plan(info(HostType::ConfiglessClient, HostState::Idle)), StartPlan::Stream);
    assert!(!asks_for_more(StartPlan::Calibrate, 0));
    assert!(asks_for_more(StartPlan::Calibrate, 3));
    assert!(asks_for_more(StartPlan::Stream, 0));
    assert!(!asks_for_more(StartPlan::StartServer, 5));
}

#[test]
fn host_lines_name_kind_address_and_state() {
    let ip: u32 = u32::from_be_bytes([192, 168, 0, 17]);
    let calibrated = Host::new(info(HostType::Client { calibrated: true }, HostState::Idle), ip);
    let plain = Host::new(info(HostType::Client { calibrated: false }, HostState::Running), ip);
    let phone = Host::new(info(HostType::ConfiglessClient, HostState::Unreachable), 0x0a000001);
    let server = Host::new(info(HostType::Server, HostState::Running), 0);
    assert_eq!(calibrated.to_string(), "CLIENT 192.168.0.17 CALIBRATED Idle");
    assert_eq!(plain.to_string(), "CLIENT 192.168.0.17 Running");
    assert_eq!(phone.to_string(), "PHONE 10.0.0.1 Unreachable");
    assert_eq!(server.to_string(), "SERVER 0.0.0.0 Running");
}

#[test]
fn actions_offer_matching_hosts() {
    let idle_client = Host::new(info(HostType::Client { calibrated: true }, HostState::Idle), 1);
    let running_client = Host::new(info(HostType::Client { calibrated: false }, HostState::Running), 2);
    let running_phone = Host::new(info(HostType::ConfiglessClient, HostState::Running), 3);
    let idle_server = Host::new(info(HostType::Server, HostState::Idle), 4);
    let gone = Host::new(info(HostType::Client { calibrated: true }, HostState::Unreachable), 5);
    let hosts = [idle_client, running_client, running_phone, idle_server, gone];
    assert_eq!(hosts_offered(&hosts, HostAction::Start), vec![idle_client, idle_server]);
    assert_eq!(hosts_offered(&hosts, HostAction::Stop), vec![running_client, running_phone]);
    assert_eq!(hosts_offered(&hosts, HostAction::Update), vec![running_client]);
    assert!(!is_offered(HostAction::Update, running_phone.info()));
    assert!(server_needs_start(&idle_server));
    assert!(!server_needs_start(&running_client));
}
