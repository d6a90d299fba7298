//! The organizer's bookkeeping of the hosts it found on the network: which
//! host it treats as the server, how ping answers update the list, and which
//! host a stop request removes. Sending and receiving happen outside.
use vstd::prelude::*;
use crate::hosts::{HostInfo, HostState, HostType, host_info_of_byte};
use crate::scanning::{decimal, usize_text};
use vstd::string::StringExecFns;

verus! {

/// A host found on the network: what it reported and its IPv4 address (as
/// the 32-bit number of its octets, most significant first).
#[derive(Debug, PartialEq, Eq, Clone, Copy, Structural)]
pub struct Host {
    info: HostInfo,
    ip: u32,
}

impl Host {
    /// What the host reported.
    pub closed spec fn spec_info(&self) -> HostInfo {
        self.info
    }

    /// The host's address.
    pub closed spec fn spec_ip(&self) -> u32 {
        self.ip
    }

    /// The host with the given report and address.
    pub closed spec fn spec_new(info: HostInfo, ip: u32) -> Host {
        Host { info, ip }
    }

    /// A host is made of its report and its address.
    pub proof fn lemma_parts(info: HostInfo, ip: u32)
        ensures
            Host::spec_new(info, ip).spec_info() == info,
            Host::spec_new(info, ip).spec_ip() == ip,
            forall|h: Host| #[trigger] Host::spec_new(h.spec_info(), h.spec_ip()) == h,
    {
    }

    /// A host with the given report and address.
    pub fn new(info: HostInfo, ip: u32) -> (r: Host)
        ensures
            r == Host::spec_new(info, ip),
            r.spec_info() == info,
            r.spec_ip() == ip,
    {
        Host { info, ip }
    }

    /// What the host reported.
    pub fn info(&self) -> (r: HostInfo)
        ensures
            r == self.spec_info(),
    {
        self.info
    }

    /// The host's address.
    pub fn ip(&self) -> (r: u32)
        ensures
            r == self.spec_ip(),
    {
        self.ip
    }
}

/// The dotted-decimal text of an IPv4 address.
pub open spec fn ipv4_text(ip: u32) -> Seq<char> {
    decimal((ip / 0x100_0000) as nat) + seq!['.'] + decimal(((ip / 0x1_0000) % 0x100) as nat)
        + seq!['.'] + decimal(((ip / 0x100) % 0x100) as nat) + seq!['.'] + decimal(
        (ip % 0x100) as nat,
    )
}

/// The name of a host state.
pub open spec fn state_text(s: HostState) -> Seq<char> {
    match s {
        HostState::Unreachable => "Unreachable"@,
        HostState::Running => "Running"@,
        HostState::Idle => "Idle"@,
    }
}

/// The line describing a host: its kind and address (a calibrated client
/// says so), then its state.
pub open spec fn host_text(info: HostInfo, ip: u32) -> Seq<char> {
    (match info.host_type {
        HostType::Client { calibrated } => "CLIENT "@ + ipv4_text(ip) + if calibrated {
            " CALIBRATED"@
        } else {
            Seq::empty()
        },
        HostType::ConfiglessClient => "PHONE "@ + ipv4_text(ip),
        HostType::Server => "SERVER "@ + ipv4_text(ip),
    }) + " "@ + state_text(info.host_state)
}

/// Appends the dotted-decimal text of an IPv4 address.
fn push_ipv4_text(s: &mut String, ip: u32)
    ensures
        final(s)@ == old(s)@ + ipv4_text(ip),
{
    s.append(usize_text((ip / 0x100_0000) as usize).as_str());
    s.append(".");
    s.append(usize_text(((ip / 0x1_0000) % 0x100) as usize).as_str());
    s.append(".");
    s.append(usize_text(((ip / 0x100) % 0x100) as usize).as_str());
    s.append(".");
    s.append(usize_text((ip % 0x100) as usize).as_str());
    proof {
        reveal_strlit(".");
        assert(s@ =~= old(s)@ + ipv4_text(ip));
    }
}

impl Host {
    /// The line describing the host, such as `CLIENT 10.0.0.2 CALIBRATED Idle`.
    pub fn to_string(&self) -> (s: String)
        ensures
            s@ == host_text(self.spec_info(), self.spec_ip()),
    {
        let mut s = String::new();
        match self.info.host_type {
            HostType::Client { calibrated } => {
                s.append("CLIENT ");
                push_ipv4_text(&mut s, self.ip);
                if calibrated {
                    s.append(" CALIBRATED");
                }
            },
            HostType::ConfiglessClient => {
                s.append("PHONE ");
                push_ipv4_text(&mut s, self.ip);
            },
            HostType::Server => {
                s.append("SERVER ");
                push_ipv4_text(&mut s, self.ip);
            },
        }
        s.append(" ");
        match self.info.host_state {
            HostState::Unreachable => s.append("Unreachable"),
            HostState::Running => s.append("Running"),
            HostState::Idle => s.append("Idle"),
        }
        assert(s@ =~= host_text(self.info, self.ip));
        s
    }
}

/// Why no single server could be chosen.
#[derive(Debug, PartialEq, Eq, Clone, Copy, Structural)]
pub enum GetServerError {
    NoServer,
    Multiple(usize),
}

/// The hosts a server lookup selects: servers that are running or idle
/// (reachable).
pub open spec fn is_live_server(info: HostInfo) -> bool {
    &&& info.host_type == HostType::Server
    &&& (info.host_state == HostState::Running || info.host_state == HostState::Idle)
}

/// How many of the first `n` hosts the lookup selects.
pub open spec fn count_selected(hosts: Seq<Host>, n: nat) -> nat
    decreases n,
{
    if n == 0 {
        0
    } else {
        count_selected(hosts, (n - 1) as nat) + if is_live_server(hosts[n - 1].spec_info()) {
            1nat
        } else {
            0nat
        }
    }
}

/// The index of the first of the first `n` hosts the lookup selects.
pub open spec fn first_selected(hosts: Seq<Host>, n: nat) -> int
    decreases n,
{
    if n == 0 {
        -1
    } else if first_selected(hosts, (n - 1) as nat) >= 0 {
        first_selected(hosts, (n - 1) as nat)
    } else if is_live_server(hosts[n - 1].spec_info()) {
        n - 1
    } else {
        -1
    }
}

/// The lookup's result, counting the reachable servers: none gives
/// `NoServer`, one gives that server, and `k >= 2` give `Multiple(k)`.
pub open spec fn lookup_result(count: nat) -> Option<GetServerError> {
    if count == 0 {
        Some(GetServerError::NoServer)
    } else if count == 1 {
        None
    } else {
        Some(GetServerError::Multiple(count as usize))
    }
}

proof fn lemma_first_selected(hosts: Seq<Host>, n: nat)
    requires
        n <= hosts.len(),
    ensures
        count_selected(hosts, n) == 0 <==> first_selected(hosts, n) == -1,
        first_selected(hosts, n) >= 0 ==> first_selected(hosts, n) < n && is_live_server(
            hosts[first_selected(hosts, n)].spec_info(),
        ),
        first_selected(hosts, n) >= -1,
    decreases n,
{
    if n > 0 {
        lemma_first_selected(hosts, (n - 1) as nat);
    }
}

/// The server among the hosts: the only reachable server (running or idle).
/// With none the answer is `NoServer`, and with `k >= 2` it is `Multiple(k)`,
/// as the error texts say ("No running server", "Multiple running servers
/// (k)") and as the organizer's callers use the result: they offer to start
/// the server it names when it is idle, and send it the start request. The
/// lookup over bare reports, [`find_server`], keeps its own count of `k - 1`.
pub fn get_server(hosts: &[Host]) -> (r: Result<&Host, GetServerError>)
    ensures
        match lookup_result(count_selected(hosts@, hosts@.len())) {
            None => r matches Ok(h) && *h == hosts@[first_selected(hosts@, hosts@.len())],
            Some(e) => r == Err::<&Host, GetServerError>(e),
        },
{
    let mut found: Option<usize> = None;
    let mut count: usize = 0;
    let mut i: usize = 0;
    while i < hosts.len()
        invariant
            i <= hosts@.len(),
            count == count_selected(hosts@, i as nat),
            count <= i,
            found == (if first_selected(hosts@, i as nat) >= 0 {
                Some(first_selected(hosts@, i as nat) as usize)
            } else {
                None::<usize>
            }),
        decreases hosts@.len() - i,
    {
        proof {
            lemma_first_selected(hosts@, i as nat);
        }
        let info = hosts[i].info;
        let selected = match info.host_type {
            HostType::Server => match info.host_state {
                HostState::Unreachable => false,
                _ => true,
            },
            _ => false,
        };
        if selected {
            if found.is_none() {
                found = Some(i);
            }
            count += 1;
        }
        i += 1;
    }
    proof {
        lemma_first_selected(hosts@, i as nat);
    }
    if count == 0 {
        Err(GetServerError::NoServer)
    } else if count == 1 {
        match found {
            Some(k) => Ok(&hosts[k]),
            None => Err(GetServerError::NoServer),
        }
    } else {
        Err(GetServerError::Multiple(count))
    }
}

/// How many of the first `n` reports are live servers.
pub open spec fn count_live_servers(infos: Seq<HostInfo>, n: nat) -> nat
    decreases n,
{
    if n == 0 {
        0
    } else {
        count_live_servers(infos, (n - 1) as nat) + if is_live_server(infos[n - 1]) {
            1nat
        } else {
            0nat
        }
    }
}

/// The index of the first of the first `n` reports that is a live server.
pub open spec fn first_live_server(infos: Seq<HostInfo>, n: nat) -> int
    decreases n,
{
    if n == 0 {
        -1
    } else if first_live_server(infos, (n - 1) as nat) >= 0 {
        first_live_server(infos, (n - 1) as nat)
    } else if is_live_server(infos[n - 1]) {
        n - 1
    } else {
        -1
    }
}

proof fn lemma_first_live_server(infos: Seq<HostInfo>, n: nat)
    requires
        n <= infos.len(),
    ensures
        count_live_servers(infos, n) == 0 <==> first_live_server(infos, n) == -1,
        first_live_server(infos, n) >= 0 ==> first_live_server(infos, n) < n && is_live_server(
            infos[first_live_server(infos, n)],
        ),
        first_live_server(infos, n) >= -1,
    decreases n,
{
    if n > 0 {
        lemma_first_live_server(infos, (n - 1) as nat);
    }
}

/// The index of the only live server among the host reports; otherwise
/// `Err(0)` when there is none and `Err(k - 1)` when there are `k >= 2`.
pub fn find_server(infos: &[HostInfo]) -> (r: Result<usize, usize>)
    requires
        infos@.len() < usize::MAX,
    ensures
        ({
            let k = count_live_servers(infos@, infos@.len());
            if k == 1 {
                r == Ok::<usize, usize>(first_live_server(infos@, infos@.len()) as usize)
                    && 0 <= first_live_server(infos@, infos@.len()) < infos@.len()
            } else if k == 0 {
                r == Err::<usize, usize>(0)
            } else {
                r == Err::<usize, usize>((k - 1) as usize)
            }
        }),
{
    let mut found: Option<usize> = None;
    let mut count: usize = 0;
    let mut i: usize = 0;
    while i < infos.len()
        invariant
            i <= infos@.len() < usize::MAX,
            count == count_live_servers(infos@, i as nat),
            count <= i,
            found == (if first_live_server(infos@, i as nat) >= 0 {
                Some(first_live_server(infos@, i as nat) as usize)
            } else {
                None::<usize>
            }),
        decreases infos@.len() - i,
    {
        proof {
            lemma_first_live_server(infos@, i as nat);
        }
        let info = infos[i];
        let live = match info.host_type {
            HostType::Server => match info.host_state {
                HostState::Running | HostState::Idle => true,
                HostState::Unreachable => false,
            },
            _ => false,
        };
        if live {
            if found.is_none() {
                found = Some(i);
            }
            count += 1;
        }
        i += 1;
    }
    proof {
        lemma_first_live_server(infos@, i as nat);
    }
    if count == 1 {
        match found {
            Some(k) => Ok(k),
            None => Err(0),
        }
    } else if count == 0 {
        Err(0)
    } else {
        Err(count - 1)
    }
}

/// The index of the first of the hosts `hosts[k..n]` at address `ip`.
pub open spec fn first_with_address(hosts: Seq<Host>, ip: u32, k: nat, n: nat) -> Option<int>
    decreases n - k,
{
    if k >= n {
        None
    } else if hosts[k as int].spec_ip() == ip {
        Some(k as int)
    } else {
        first_with_address(hosts, ip, k + 1, n)
    }
}

proof fn lemma_first_with_address(hosts: Seq<Host>, ip: u32, k: nat, n: nat)
    ensures
        first_with_address(hosts, ip, k, n) matches Some(i) ==> k <= i < n && hosts[i].spec_ip()
            == ip,
    decreases n - k,
{
    if k < n {
        lemma_first_with_address(hosts, ip, k + 1, n);
    }
}

/// Records a one-byte ping answer `status` from `ip` during a scan in which
/// `hit[i]` says whether the `i`-th host known before the scan has answered.
/// An unreadable answer is dropped; an answer from a host known before the
/// scan updates it and marks it hit; any other answer adds a new host (also
/// when that address was added earlier in the same scan).
pub fn record_reply(hosts: &mut Vec<Host>, hit: &mut Vec<bool>, ip: u32, status: u8)
    requires
        old(hit)@.len() <= old(hosts)@.len(),
    ensures
        final(hit)@.len() == old(hit)@.len(),
        match host_info_of_byte(status) {
            None => final(hosts)@ == old(hosts)@ && final(hit)@ == old(hit)@,
            Some(info) => match first_with_address(old(hosts)@, ip, 0, old(hit)@.len()) {
                Some(i) => {
                    &&& final(hosts)@ == old(hosts)@.update(i, Host::spec_new(info, ip))
                    &&& final(hit)@ == old(hit)@.update(i, true)
                },
                None => {
                    &&& final(hosts)@ == old(hosts)@.push(Host::spec_new(info, ip))
                    &&& final(hit)@ == old(hit)@
                },
            },
        },
{
    let info = match HostInfo::try_from(status) {
        Ok(info) => info,
        Err(_) => {
            return ;
        },
    };
    let n = hit.len();
    let mut i: usize = 0;
    while i < n
        invariant
            n == hit@.len(),
            n <= hosts@.len(),
            i <= n,
            hit@ == old(hit)@,
            hosts@ == old(hosts)@,
            host_info_of_byte(status) == Some(info),
            first_with_address(hosts@, ip, 0, n as nat) == first_with_address(
                hosts@,
                ip,
                i as nat,
                n as nat,
            ),
        decreases n - i,
    {
        if hosts[i].ip == ip {
            hit.set(i, true);
            hosts.set(i, Host { info, ip });
            return ;
        }
        i += 1;
    }
    hosts.push(Host { info, ip });
}

/// The report of a host that did not answer: its type, unreachable.
pub open spec fn as_unreachable(info: HostInfo) -> HostInfo {
    HostInfo { host_type: info.host_type, host_state: HostState::Unreachable }
}

/// Marking a host unreachable changes only its state: its type, a client's
/// calibration included, stays what it was.
pub proof fn law_unreachable_keeps_type(info: HostInfo)
    ensures
        as_unreachable(info).host_type == info.host_type,
        as_unreachable(info).host_state == HostState::Unreachable,
{
}

/// After a scan, marks every host known before the scan that did not answer
/// as unreachable, keeping its type; hosts added by the scan stay as they are.
pub fn mark_unreached(hosts: &mut Vec<Host>, hit: &Vec<bool>)
    requires
        hit@.len() <= old(hosts)@.len(),
    ensures
        final(hosts)@.len() == old(hosts)@.len(),
        forall|i: int|
            0 <= i < old(hosts)@.len() ==> #[trigger] final(hosts)@[i] == if i < hit@.len()
                && !hit@[i] {
                Host::spec_new(as_unreachable(old(hosts)@[i].spec_info()), old(hosts)@[i].spec_ip())
            } else {
                old(hosts)@[i]
            },
        forall|i: int|
            0 <= i < old(hosts)@.len() ==> (#[trigger] final(hosts)@[i]).spec_info().host_type
                == old(hosts)@[i].spec_info().host_type && final(hosts)@[i].spec_ip() == old(
                hosts,
            )@[i].spec_ip(),
{
    let n = hit.len();
    let mut i: usize = 0;
    while i < n
        invariant
            n == hit@.len(),
            n <= old(hosts)@.len(),
            hosts@.len() == old(hosts)@.len(),
            i <= n,
            forall|j: int|
                0 <= j < old(hosts)@.len() ==> #[trigger] hosts@[j] == if j < i && !hit@[j] {
                    Host::spec_new(as_unreachable(old(hosts)@[j].spec_info()), old(hosts)@[j].spec_ip())
                } else {
                    old(hosts)@[j]
                },
        decreases n - i,
    {
        if !hit[i] {
            let h = hosts[i];
            let info = HostInfo { host_type: h.info.host_type, host_state: HostState::Unreachable };
            hosts.set(i, Host { info, ip: h.ip });
        }
        i += 1;
    }
}

/// Whether a stop request may go to `host`: only a running host can be stopped.
pub fn can_stop(host: &Host) -> (r: bool)
    ensures
        r == (host.spec_info().host_state == HostState::Running),
{
    match host.info.host_state {
        HostState::Running => true,
        _ => false,
    }
}

/// Removes the first host equal to `host` after it was told to stop.
pub fn remove_host(hosts: &mut Vec<Host>, host: Host) -> (r: usize)
    requires
        old(hosts)@.contains(host),
    ensures
        r < old(hosts)@.len(),
        old(hosts)@[r as int] == host,
        forall|j: int| 0 <= j < r ==> old(hosts)@[j] != host,
        final(hosts)@ == old(hosts)@.remove(r as int),
{
    let mut i: usize = 0;
    while i < hosts.len()
        invariant
            hosts@ == old(hosts)@,
            i <= hosts@.len(),
            forall|j: int| 0 <= j < i ==> hosts@[j] != host,
            hosts@.contains(host),
        decreases hosts@.len() - i,
    {
        if hosts[i] == host {
            hosts.remove(i);
            return i;
        }
        i += 1;
    }
    i
}

/// How the organizer starts a host.
#[derive(Debug, Clone, Copy, PartialEq, Eq, Structural)]
pub enum StartPlan {
    /// Ask the server to start serving.
    StartServer,
    /// Collect images of a calibration board from the client, calibrate its
    /// camera, then send it its configuration with the calibration.
    Calibrate,
    /// Show the client's images, read the field of view it reports, then
    /// send it its configuration.
    Stream,
}

/// The way a host of the given type is started: a server is asked to start,
/// a client without a calibration is calibrated, and any other client (a
/// calibrated one, or a configless one) streams its images.
pub open spec fn plan_for(host_type: HostType) -> StartPlan {
    match host_type {
        HostType::Server => StartPlan::StartServer,
        HostType::Client { calibrated } => if calibrated {
            StartPlan::Stream
        } else {
            StartPlan::Calibrate
        },
        HostType::ConfiglessClient => StartPlan::Stream,
    }
}

/// How the organizer starts the host that sent this report.
pub fn start_plan(info: HostInfo) -> (r: StartPlan)
    ensures
        r == plan_for(info.host_type),
{
    match info.host_type {
        HostType::Server => StartPlan::StartServer,
        HostType::Client { calibrated } => {
            if calibrated {
                StartPlan::Stream
            } else {
                StartPlan::Calibrate
            }
        },
        HostType::ConfiglessClient => StartPlan::Stream,
    }
}

/// Whether, after an image, the operator is asked if more images are wanted
/// (the image loop ends when the answer is no): while calibrating only once
/// an image has been kept, while streaming after every image.
pub fn asks_for_more(plan: StartPlan, kept_images: usize) -> (r: bool)
    ensures
        r == match plan {
            StartPlan::Calibrate => kept_images > 0,
            StartPlan::Stream => true,
            StartPlan::StartServer => false,
        },
{
    match plan {
        StartPlan::Calibrate => kept_images > 0,
        StartPlan::Stream => true,
        StartPlan::StartServer => false,
    }
}

/// What the operator asks the organizer to do with a host.
#[derive(Debug, Clone, Copy, PartialEq, Eq, Structural)]
pub enum HostAction {
    /// Start an idle host.
    Start,
    /// Stop a running host.
    Stop,
    /// Change the pose of a running camera client.
    Update,
}

/// The hosts offered for an action: idle ones to start, running ones to
/// stop, running camera clients to update.
pub open spec fn offered_for(action: HostAction, info: HostInfo) -> bool {
    match action {
        HostAction::Start => info.host_state == HostState::Idle,
        HostAction::Stop => info.host_state == HostState::Running,
        HostAction::Update => info.host_type is Client && info.host_state == HostState::Running,
    }
}

/// Whether a host with this report is offered for the action.
pub fn is_offered(action: HostAction, info: HostInfo) -> (r: bool)
    ensures
        r == offered_for(action, info),
{
    match action {
        HostAction::Start => match info.host_state {
            HostState::Idle => true,
            _ => false,
        },
        HostAction::Stop => match info.host_state {
            HostState::Running => true,
            _ => false,
        },
        HostAction::Update => match (info.host_type, info.host_state) {
            (HostType::Client { .. }, HostState::Running) => true,
            _ => false,
        },
    }
}

/// The hosts offered for an action, in the order they were found.
pub fn hosts_offered(hosts: &[Host], action: HostAction) -> (r: Vec<Host>)
    ensures
        r@ == hosts@.filter(|h: Host| offered_for(action, h.spec_info())),
{
    let ghost pred = |h: Host| offered_for(action, h.spec_info());
    let mut out: Vec<Host> = Vec::new();
    let mut i: usize = 0;
    while i < hosts.len()
        invariant
            i <= hosts@.len(),
            pred == (|h: Host| offered_for(action, h.spec_info())),
            out@ == hosts@.take(i as int).filter(pred),
        decreases hosts@.len() - i,
    {
        reveal_with_fuel(Seq::filter, 1);
        assert(hosts@.take(i + 1).drop_last() =~= hosts@.take(i as int));
        let h = hosts[i];
        if is_offered(action, h.info) {
            out.push(h);
        }
        i += 1;
    }
    assert(hosts@.take(hosts@.len() as int) =~= hosts@);
    out
}

/// Whether the server found is idle, so that the operator is offered to start
/// it before anything else.
pub fn server_needs_start(server: &Host) -> (r: bool)
    ensures
        r == (server.spec_info().host_state == HostState::Idle),
{
    match server.info.host_state {
        HostState::Idle => true,
        _ => false,
    }
}

} // verus!
