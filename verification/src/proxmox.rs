//! The Proxmox side: the records `pvesh` returns and the command lines the
//! daemon runs to obtain and change them.
use vstd::prelude::*;

use crate::config::ProxmoxConfig;
use crate::dhcp::mac::{normalize_mac, normalized_mac};
use crate::text::{chars_of, clone_opt_string, dec_text, owned, push_dec, push_text, same_text, string_of_chars};

verus! {

/// Runs `pvesh` for the daemon.
pub struct ProxmoxClient {
    pvesh_bin: String,
}

impl ProxmoxClient {
    /// The `pvesh` binary this client runs.
    pub closed spec fn pvesh(&self) -> Seq<char> {
        self.pvesh_bin@
    }

    /// A client running the configured `pvesh` binary.
    pub fn new(config: &ProxmoxConfig) -> (r: Self)
        ensures
            r.pvesh() == config.pvesh_bin@,
    {
        ProxmoxClient { pvesh_bin: config.pvesh_bin.clone() }
    }

    /// The `pvesh` binary this client runs.
    pub fn pvesh_bin(&self) -> (r: &str)
        ensures
            r@ == self.pvesh(),
    {
        self.pvesh_bin.as_str()
    }
}

/// `/version`.
#[derive(Debug, Clone)]
pub struct ProxmoxVersion {
    pub version: String,
    pub release: String,
    pub repoid: String,
}

/// An entry of `/nodes`.
#[derive(Debug, Clone)]
pub struct ProxmoxNode {
    pub node: String,
    pub status: Option<String>,
}

/// An entry of `/nodes/{node}/qemu`, with the node it was listed on.
#[derive(Debug, Clone)]
pub struct QemuVM {
    pub id: u32,
    pub vmid: u32,
    pub name: String,
    pub node: String,
    pub status: Option<String>,
    pub mem: Option<u64>,
    pub maxmem: Option<u64>,
}

/// An entry of `/nodes/{node}/lxc`, with the node it was listed on.
#[derive(Debug, Clone)]
pub struct LxcContainer {
    pub id: u32,
    pub vmid: u32,
    pub name: String,
    pub node: String,
    pub status: Option<String>,
    pub mem: Option<u64>,
    pub maxmem: Option<u64>,
}

/// The cluster part of `/cluster/status`.
#[derive(Debug, Clone)]
pub struct ClusterSummary {
    pub name: String,
    pub nodeid: u32,
}

/// A node entry of `/cluster/status`.
#[derive(Debug, Clone)]
pub struct ClusterNodeStatus {
    pub nodeid: u32,
    pub name: String,
    pub online: Option<u32>,
}

/// `/cluster/status`: the cluster, when the host is in one, and its nodes.
#[derive(Debug, Clone)]
pub struct ClusterStatus {
    pub cluster: Option<ClusterSummary>,
    pub nodelist: Option<Vec<ClusterNodeStatus>>,
}

/// The CPU part of `/nodes/{node}/status`.
#[derive(Debug, Clone)]
pub struct NodeCpuInfo {
    pub cpus: u32,
}

/// The memory part of `/nodes/{node}/status`.
#[derive(Debug, Clone)]
pub struct NodeMemory {
    pub total: u64,
    pub used: u64,
    pub available: Option<u64>,
}

/// `/nodes/{node}/status`.
#[derive(Debug, Clone)]
pub struct NodeStatus {
    pub uptime: Option<u64>,
    pub cpuinfo: Option<NodeCpuInfo>,
    pub memory: Option<NodeMemory>,
}

/// A QEMU guest as the DHCP side knows it: where it runs and its MAC address.
#[derive(Debug, Clone)]
pub struct QemuIdentity {
    pub vmid: u32,
    pub node: String,
    pub mac: String,
}

/// The texts of a list of strings.
pub open spec fn words(v: Seq<String>) -> Seq<Seq<char>> {
    v.map_values(|s: String| s@)
}

/// Appends an owned copy of `s` to `v`.
fn push_word(v: &mut Vec<String>, s: &str)
    ensures
        words(final(v)@) == words(old(v)@).push(s@),
{
    v.push(owned(s));
    assert(words(v@) =~= words(old(v)@).push(s@));
}

/// The entries of a node's listing that could be read, in order.
pub open spec fn readable<T>(items: Seq<Option<T>>) -> Seq<T>
    decreases items.len(),
{
    if items.len() == 0 {
        Seq::empty()
    } else {
        let prev = readable(items.drop_last());
        match items.last() {
            Some(v) => prev.push(v),
            None => prev,
        }
    }
}

/// `r` is the guest `g` as listed on `node`.
pub open spec fn qemu_on_node(r: QemuVM, g: QemuVM, node: Seq<char>) -> bool {
    &&& r.id == g.id
    &&& r.vmid == g.vmid
    &&& r.name == g.name
    &&& r.node@ == node
    &&& r.status == g.status
    &&& r.mem == g.mem
    &&& r.maxmem == g.maxmem
}

/// `r` is the container `g` as listed on `node`.
pub open spec fn lxc_on_node(r: LxcContainer, g: LxcContainer, node: Seq<char>) -> bool {
    &&& r.id == g.id
    &&& r.vmid == g.vmid
    &&& r.name == g.name
    &&& r.node@ == node
    &&& r.status == g.status
    &&& r.mem == g.mem
    &&& r.maxmem == g.maxmem
}

/// Adds the QEMU guests of one node's listing to `out`: nothing when the
/// listing could not be read, else every entry that could be read, in
/// order, marked with the node's name.
pub fn place_qemu(out: &mut Vec<QemuVM>, node: &str, listing: &Option<Vec<Option<QemuVM>>>)
    ensures
        match listing {
            None => final(out)@ == old(out)@,
            Some(items) => {
                let kept = readable(items@);
                &&& final(out)@.len() == old(out)@.len() + kept.len()
                &&& forall|i: int| 0 <= i < old(out)@.len() ==> final(out)@[i] == old(out)@[i]
                &&& forall|k: int|
                    0 <= k < kept.len() ==> qemu_on_node(
                        #[trigger] final(out)@[old(out)@.len() + k],
                        kept[k],
                        node@,
                    )
            },
        },
{
    let ghost start = out@;
    match listing {
        None => {},
        Some(items) => {
            let mut i: usize = 0;
            while i < items.len()
                invariant
                    0 <= i <= items.len(),
                    out@.len() == start.len() + readable(items@.take(i as int)).len(),
                    forall|j: int| 0 <= j < start.len() ==> out@[j] == start[j],
                    forall|k: int|
                        0 <= k < readable(items@.take(i as int)).len() ==> qemu_on_node(
                            #[trigger] out@[start.len() + k],
                            readable(items@.take(i as int))[k],
                            node@,
                        ),
                decreases items.len() - i,
            {
                let ghost pre = items@.take((i + 1) as int);
                assert(pre.drop_last() =~= items@.take(i as int));
                assert(pre.last() == items@[i as int]);
                match &items[i] {
                    Some(g) => {
                        out.push(
                            QemuVM {
                                id: g.id,
                                vmid: g.vmid,
                                name: g.name.clone(),
                                node: owned(node),
                                status: clone_opt_string(&g.status),
                                mem: g.mem,
                                maxmem: g.maxmem,
                            },
                        );
                    },
                    None => {},
                }
                i = i + 1;
            }
            assert(items@.take(items@.len() as int) =~= items@);
        },
    }
}

/// Adds the containers of one node's listing to `out`: nothing when the
/// listing could not be read, else every entry that could be read, in
/// order, marked with the node's name.
pub fn place_lxc(out: &mut Vec<LxcContainer>, node: &str, listing: &Option<Vec<Option<LxcContainer>>>)
    ensures
        match listing {
            None => final(out)@ == old(out)@,
            Some(items) => {
                let kept = readable(items@);
                &&& final(out)@.len() == old(out)@.len() + kept.len()
                &&& forall|i: int| 0 <= i < old(out)@.len() ==> final(out)@[i] == old(out)@[i]
                &&& forall|k: int|
                    0 <= k < kept.len() ==> lxc_on_node(
                        #[trigger] final(out)@[old(out)@.len() + k],
                        kept[k],
                        node@,
                    )
            },
        },
{
    let ghost start = out@;
    match listing {
        None => {},
        Some(items) => {
            let mut i: usize = 0;
            while i < items.len()
                invariant
                    0 <= i <= items.len(),
                    out@.len() == start.len() + readable(items@.take(i as int)).len(),
                    forall|j: int| 0 <= j < start.len() ==> out@[j] == start[j],
                    forall|k: int|
                        0 <= k < readable(items@.take(i as int)).len() ==> lxc_on_node(
                            #[trigger] out@[start.len() + k],
                            readable(items@.take(i as int))[k],
                            node@,
                        ),
                decreases items.len() - i,
            {
                let ghost pre = items@.take((i + 1) as int);
                assert(pre.drop_last() =~= items@.take(i as int));
                assert(pre.last() == items@[i as int]);
                match &items[i] {
                    Some(g) => {
                        out.push(
                            LxcContainer {
                                id: g.id,
                                vmid: g.vmid,
                                name: g.name.clone(),
                                node: owned(node),
                                status: clone_opt_string(&g.status),
                                mem: g.mem,
                                maxmem: g.maxmem,
                            },
                        );
                    },
                    None => {},
                }
                i = i + 1;
            }
            assert(items@.take(items@.len() as int) =~= items@);
        },
    }
}

/// `pvesh get {path} --output-format json`, without the binary.
pub fn get_json_args(path: &str) -> (r: Vec<String>)
    ensures
        words(r@) == seq!["get"@, path@, "--output-format"@, "json"@],
{
    let mut v: Vec<String> = Vec::new();
    push_word(&mut v, "get");
    push_word(&mut v, path);
    push_word(&mut v, "--output-format");
    push_word(&mut v, "json");
    assert(words(v@) =~= seq!["get"@, path@, "--output-format"@, "json"@]);
    v
}

/// The `-{key} {value}` words of a parameter list.
pub open spec fn param_words(params: Seq<(String, String)>) -> Seq<Seq<char>>
    decreases params.len(),
{
    if params.len() == 0 {
        Seq::empty()
    } else {
        param_words(params.drop_last()).push("-"@ + params.last().0@).push(params.last().1@)
    }
}

/// The arguments of `pvesh {method} {path} -{key} {value}...`, with
/// `--output-format json` added to a `get`.
pub open spec fn execute_words(method: Seq<char>, path: Seq<char>, params: Seq<(String, String)>) -> Seq<
    Seq<char>,
> {
    let base = seq![method, path] + param_words(params);
    if method == "get"@ {
        base.push("--output-format"@).push("json"@)
    } else {
        base
    }
}

/// The arguments of `pvesh {method} {path} -{key} {value}...`, with
/// `--output-format json` added to a `get`.
pub fn execute_args(method: &str, path: &str, params: &Vec<(String, String)>) -> (r: Vec<String>)
    ensures
        words(r@) == execute_words(method@, path@, params@),
{
    let mut v: Vec<String> = Vec::new();
    push_word(&mut v, method);
    push_word(&mut v, path);
    let mut i: usize = 0;
    while i < params.len()
        invariant
            0 <= i <= params.len(),
            words(v@) == seq![method@, path@] + param_words(params@.take(i as int)),
        decreases params.len() - i,
    {
        let ghost before = words(v@);
        let mut flag = owned("-");
        push_text(&mut flag, params[i].0.as_str());
        push_word(&mut v, flag.as_str());
        push_word(&mut v, params[i].1.as_str());
        assert(words(v@) == before.push("-"@ + params@[i as int].0@).push(params@[i as int].1@));
        i = i + 1;
        assert(params@.take(i as int).drop_last() =~= params@.take((i - 1) as int));
        assert(params@.take(i as int).last() == params@[i - 1]);
        assert(words(v@) =~= seq![method@, path@] + param_words(params@.take(i as int)));
    }
    assert(params@.take(params@.len() as int) =~= params@);
    if same_text(method, "get") {
        push_word(&mut v, "--output-format");
        push_word(&mut v, "json");
    }
    assert(words(v@) =~= execute_words(method@, path@, params@));
    v
}

/// `/nodes/{node}/qemu`.
pub fn qemu_list_path(node: &str) -> (r: String)
    ensures
        r@ == "/nodes/"@ + node@ + "/qemu"@,
{
    let mut s = owned("/nodes/");
    push_text(&mut s, node);
    push_text(&mut s, "/qemu");
    s
}

/// `/nodes/{node}/lxc`.
pub fn lxc_list_path(node: &str) -> (r: String)
    ensures
        r@ == "/nodes/"@ + node@ + "/lxc"@,
{
    let mut s = owned("/nodes/");
    push_text(&mut s, node);
    push_text(&mut s, "/lxc");
    s
}

/// `/nodes/{node}/lxc/{vmid}/config`.
pub fn lxc_config_path(node: &str, vmid: u32) -> (r: String)
    ensures
        r@ == "/nodes/"@ + node@ + "/lxc/"@ + dec_text(vmid as nat) + "/config"@,
{
    let mut s = owned("/nodes/");
    push_text(&mut s, node);
    push_text(&mut s, "/lxc/");
    push_dec(&mut s, vmid as u64);
    push_text(&mut s, "/config");
    s
}

/// `/nodes/{node}/qemu/{vmid}/config`.
pub fn qemu_config_path(node: &str, vmid: u32) -> (r: String)
    ensures
        r@ == "/nodes/"@ + node@ + "/qemu/"@ + dec_text(vmid as nat) + "/config"@,
{
    let mut s = owned("/nodes/");
    push_text(&mut s, node);
    push_text(&mut s, "/qemu/");
    push_dec(&mut s, vmid as u64);
    push_text(&mut s, "/config");
    s
}

/// `pvesh set /nodes/{node}/lxc/{vmid}/config -password {password}`,
/// without the binary.
pub fn set_password_args(node: &str, vmid: u32, password: &str) -> (r: Vec<String>)
    ensures
        words(r@) == seq![
            "set"@,
            "/nodes/"@ + node@ + "/lxc/"@ + dec_text(vmid as nat) + "/config"@,
            "-password"@,
            password@,
        ],
{
    let mut v: Vec<String> = Vec::new();
    push_word(&mut v, "set");
    let path = lxc_config_path(node, vmid);
    push_word(&mut v, path.as_str());
    push_word(&mut v, "-password");
    push_word(&mut v, password);
    v
}

/// The node of the first container with `vmid`.
pub fn find_container_node(containers: &Vec<LxcContainer>, vmid: u32) -> (r: Option<String>)
    ensures
        match r {
            Some(node) => exists|i: int|
                0 <= i < containers@.len() && containers@[i].vmid == vmid && node
                    == containers@[i].node && forall|j: int|
                    0 <= j < i ==> containers@[j].vmid != vmid,
            None => forall|i: int| 0 <= i < containers@.len() ==> containers@[i].vmid != vmid,
        },
{
    let mut i: usize = 0;
    while i < containers.len()
        invariant
            0 <= i <= containers.len(),
            forall|j: int| 0 <= j < i ==> containers@[j].vmid != vmid,
        decreases containers.len() - i,
    {
        if containers[i].vmid == vmid {
            return Some(containers[i].node.clone());
        }
        i = i + 1;
    }
    None
}

/// Why a Proxmox operation failed.
#[derive(Debug)]
pub enum ProxmoxError {
    /// No container with this VMID exists.
    ContainerNotFound(u32),
    /// No QEMU guest with this VMID exists.
    QemuNotFound(u32),
    /// The QEMU guest has no network device with a MAC address.
    NoMacAddress(u32),
    /// `pvesh` exited with failure; the words of the command and its error output.
    CommandFailed { command: String, stderr: String },
    /// The command could not be run or its output not read.
    Backend(String),
}

/// The message of a Proxmox error.
pub open spec fn proxmox_error_message(e: ProxmoxError) -> Seq<char> {
    match e {
        ProxmoxError::ContainerNotFound(v) => "lxc container "@ + dec_text(v as nat)
            + " not found"@,
        ProxmoxError::QemuNotFound(v) => "qemu vm "@ + dec_text(v as nat) + " not found"@,
        ProxmoxError::NoMacAddress(v) => "qemu vm "@ + dec_text(v as nat)
            + " has no network device with a mac address"@,
        ProxmoxError::CommandFailed { command, stderr } => "pvesh "@ + command@ + " failed: "@
            + stderr@,
        ProxmoxError::Backend(m) => m@,
    }
}

impl ProxmoxError {
    /// The human-readable message of the error.
    pub fn message(&self) -> (r: String)
        ensures
            r@ == proxmox_error_message(*self),
    {
        match self {
            ProxmoxError::ContainerNotFound(v) => {
                let mut s = owned("lxc container ");
                push_dec(&mut s, *v as u64);
                push_text(&mut s, " not found");
                s
            },
            ProxmoxError::QemuNotFound(v) => {
                let mut s = owned("qemu vm ");
                push_dec(&mut s, *v as u64);
                push_text(&mut s, " not found");
                s
            },
            ProxmoxError::NoMacAddress(v) => {
                let mut s = owned("qemu vm ");
                push_dec(&mut s, *v as u64);
                push_text(&mut s, " has no network device with a mac address");
                s
            },
            ProxmoxError::CommandFailed { command, stderr } => {
                let mut s = owned("pvesh ");
                push_text(&mut s, command.as_str());
                push_text(&mut s, " failed: ");
                push_text(&mut s, stderr.as_str());
                s
            },
            ProxmoxError::Backend(m) => m.clone(),
        }
    }
}

/// The node that runs the container with `vmid`, or why there is none.
pub fn container_node_or_not_found(containers: &Vec<LxcContainer>, vmid: u32) -> (r: Result<
    String,
    ProxmoxError,
>)
    ensures
        match r {
            Ok(node) => exists|i: int|
                0 <= i < containers@.len() && containers@[i].vmid == vmid && node
                    == containers@[i].node,
            Err(e) => e == ProxmoxError::ContainerNotFound(vmid) && forall|i: int|
                0 <= i < containers@.len() ==> containers@[i].vmid != vmid,
        },
{
    match find_container_node(containers, vmid) {
        Some(node) => Ok(node),
        None => Err(ProxmoxError::ContainerNotFound(vmid)),
    }
}

/// The MAC address of a network device entry such as
/// `virtio=BC:24:11:2A:3B:4C,bridge=vmbr0`: the value of its first
/// comma-separated item, normalised.
pub open spec fn net_device_mac_spec(value: Seq<char>) -> Option<Seq<char>> {
    let first = match first_index_of(value, ',') {
        Some(k) => value.take(k),
        None => value,
    };
    match first_index_of(first, '=') {
        Some(k) => normalized_mac(first.skip(k + 1)),
        None => None,
    }
}

/// The position of the first `c` in `s`.
pub open spec fn first_index_of(s: Seq<char>, c: char) -> Option<int> {
    if exists|i: int| 0 <= i < s.len() && s[i] == c {
        Some(choose|i: int| 0 <= i < s.len() && s[i] == c && forall|j: int| 0 <= j < i ==> s[j] != c)
    } else {
        None
    }
}

fn index_of(cs: &Vec<char>, end: usize, c: char) -> (r: Option<usize>)
    requires
        end <= cs.len(),
    ensures
        match r {
            Some(k) => k < end && cs@[k as int] == c && forall|j: int| 0 <= j < k ==> cs@[j] != c,
            None => forall|j: int| 0 <= j < end ==> cs@[j] != c,
        },
{
    let mut i: usize = 0;
    while i < end
        invariant
            0 <= i <= end <= cs.len(),
            forall|j: int| 0 <= j < i ==> cs@[j] != c,
        decreases end - i,
    {
        if cs[i] == c {
            return Some(i);
        }
        i = i + 1;
    }
    None
}

proof fn lemma_first_index(s: Seq<char>, c: char, k: int)
    requires
        0 <= k < s.len(),
        s[k] == c,
        forall|j: int| 0 <= j < k ==> s[j] != c,
    ensures
        first_index_of(s, c) == Some(k),
{
    let w = choose|i: int| 0 <= i < s.len() && s[i] == c && forall|j: int| 0 <= j < i ==> s[j] != c;
    assert(0 <= w < s.len() && s[w] == c && forall|j: int| 0 <= j < w ==> s[j] != c);
    if w < k {
        assert(s[w] != c);
    }
    if k < w {
        assert(s[k] != c);
    }
}

/// The MAC address of a network device entry such as
/// `virtio=BC:24:11:2A:3B:4C,bridge=vmbr0`, normalised.
pub fn net_device_mac(value: &str) -> (r: Option<String>)
    ensures
        match net_device_mac_spec(value@) {
            Some(m) => r matches Some(s) && s@ == m,
            None => r is None,
        },
{
    let cs = chars_of(value);
    let end = match index_of(&cs, cs.len(), ',') {
        Some(k) => {
            proof {
                lemma_first_index(cs@, ',', k as int);
            }
            k
        },
        None => cs.len(),
    };
    let ghost first = if end == cs.len() {
        cs@
    } else {
        cs@.take(end as int)
    };
    assert(first =~= cs@.take(end as int));
    match index_of(&cs, end, '=') {
        None => {
            assert(forall|j: int| 0 <= j < first.len() ==> first[j] != '=');
            None
        },
        Some(k) => {
            proof {
                lemma_first_index(first, '=', k as int);
            }
            let mut rest: Vec<char> = Vec::new();
            let mut i: usize = k + 1;
            while i < end
                invariant
                    k + 1 <= i <= end <= cs.len(),
                    rest@ == cs@.subrange(k + 1, i as int),
                decreases end - i,
            {
                rest.push(cs[i]);
                i = i + 1;
                assert(rest@ =~= cs@.subrange(k + 1, i as int));
            }
            assert(rest@ =~= first.skip(k + 1));
            let text = string_of_chars(&rest);
            match normalize_mac(text.as_str()) {
                Ok(m) => Some(m),
                Err(_) => None,
            }
        },
    }
}

/// How the output of `pvesh` is handed back by the generic executor.
#[derive(Debug, Clone, Copy, PartialEq, Eq, Structural)]
pub enum ExecuteOutput {
    /// No output: report `{"status": "ok"}`.
    StatusOk,
    /// The output is JSON: report it as is.
    Json,
    /// Other output: report `{"output": <text>}`.
    Text,
}

/// `serde_json::from_str::<serde_json::Value>` succeeds on this text.
pub uninterp spec fn is_json_value(text: Seq<char>) -> bool;

/// `serde_json::from_str::<serde_json::Value>(text).is_ok()`: whether the
/// text is one JSON value, as `is_json_value` names it.
#[verifier::external_body]
fn json_value_parses(text: &str) -> (r: bool)
    ensures
        r == is_json_value(text@),
{
    serde_json::from_str::<serde_json::Value>(text).is_ok()
}

/// How the trimmed standard output of a successful `pvesh` run is reported.
pub fn classify_execute_output(stdout_trimmed: &str) -> (r: ExecuteOutput)
    ensures
        stdout_trimmed@.len() == 0 ==> r == ExecuteOutput::StatusOk,
        stdout_trimmed@.len() > 0 && is_json_value(stdout_trimmed@) ==> r == ExecuteOutput::Json,
        stdout_trimmed@.len() > 0 && !is_json_value(stdout_trimmed@) ==> r == ExecuteOutput::Text,
{
    if stdout_trimmed.is_empty() {
        ExecuteOutput::StatusOk
    } else if json_value_parses(stdout_trimmed) {
        ExecuteOutput::Json
    } else {
        ExecuteOutput::Text
    }
}

} // verus!
