use vstd::prelude::*;
use vstd::string::{StrSliceExecFns, StringExecFns};

use crate::digest::{concat_decimal, dec_chars};
use crate::spawn::Namespace;

verus! {

/// Where the pinned namespace files live: under the runtime directory
/// when one is set, else under a per-uid fallback in `/tmp`.
pub fn namespace_dir(xdg_runtime_dir: &Option<String>, uid: u32) -> (r: String)
    ensures
        match xdg_runtime_dir {
            Some(d) => r@ == d@ + "/vagga"@,
            None => r@ == "/tmp/vagga-"@ + dec_chars(uid as nat),
        },
{
    match xdg_runtime_dir {
        Some(d) => d.clone().concat("/vagga"),
        None => concat_decimal(String::from_str("/tmp/vagga-"), uid as u64),
    }
}

/// Both pinned namespace files must exist before containers can join
/// the gateway network.
pub fn is_netns_set_up(userns_present: bool, netns_present: bool) -> (r: bool)
    ensures
        r == (userns_present && netns_present),
{
    userns_present && netns_present
}

/// The namespace joins that enter the gateway: the user namespace
/// first, then the network namespace, each from its pinned file.
pub fn join_gateway_namespaces(nsdir: &String) -> (r: Vec<(String, Namespace)>)
    ensures
        r@.len() == 2,
        r@[0].0@ == nsdir@ + "/userns"@ && r@[0].1 == Namespace::NewUser,
        r@[1].0@ == nsdir@ + "/netns"@ && r@[1].1 == Namespace::NewNet,
{
    let mut r: Vec<(String, Namespace)> = Vec::new();
    r.push((nsdir.clone().concat("/userns"), Namespace::NewUser));
    r.push((nsdir.clone().concat("/netns"), Namespace::NewNet));
    r
}

/// Whether a resolver line names a nameserver.
pub open spec fn spec_ns_line(line: Seq<char>) -> bool {
    crate::pip::starts_with(line, "nameserver "@)
}

/// The nameserver addresses in resolver-configuration lines: the rest
/// of every line that starts with `nameserver `.
pub open spec fn spec_nameservers(lines: Seq<Seq<char>>) -> Seq<Seq<char>>
    decreases lines.len(),
{
    if lines.len() == 0 {
        Seq::<Seq<char>>::empty()
    } else {
        spec_nameservers(lines.drop_last()) + (if spec_ns_line(lines.last()) {
            seq![lines.last().skip(11)]
        } else {
            Seq::<Seq<char>>::empty()
        })
    }
}

/// Extract the nameservers from the lines of a resolver configuration.
pub fn get_nameservers(lines: &Vec<String>) -> (r: Vec<String>)
    ensures
        r.deep_view() == spec_nameservers(lines.deep_view()),
{
    let mut r: Vec<String> = Vec::new();
    let mut i: usize = 0;
    proof {
        assert(lines.deep_view().take(0) =~= Seq::<Seq<char>>::empty());
        assert(r.deep_view() =~= spec_nameservers(lines.deep_view().take(0)));
    }
    while i < lines.len()
        invariant
            i <= lines@.len(),
            r.deep_view() == spec_nameservers(lines.deep_view().take(i as int)),
        decreases lines@.len() - i,
    {
        proof {
            assert(lines.deep_view().take(i + 1).drop_last() =~= lines.deep_view().take(i as int));
            assert(lines.deep_view().take(i + 1).last() == lines@[i as int]@);
            reveal_strlit("nameserver ");
        }
        let line = &lines[i];
        let n = line.as_str().unicode_len();
        let ghost r0 = r.deep_view();
        let is_ns = if n >= 11 {
            let head = line.as_str().substring_char(0, 11).to_owned();
            head.eq(&String::from_str("nameserver "))
        } else {
            false
        };
        if is_ns {
            r.push(line.as_str().substring_char(11, n).to_owned());
            proof {
                assert(r.deep_view() =~~= r0.push(lines@[i as int]@.skip(11)));
            }
        }
        proof {
            assert(r.deep_view() =~= spec_nameservers(lines.deep_view().take(i + 1)));
        }
        i += 1;
    }
    proof {
        assert(lines.deep_view().take(lines@.len() as int) =~= lines.deep_view());
    }
    r
}

/// One iptables argument list that routes a TCP port to the guest.
pub open spec fn spec_iptables_rule(port: u16, ip: Seq<char>, delete: bool) -> Seq<Seq<char>> {
    seq![
        "-t"@,
        "nat"@,
        if delete {
            "-D"@
        } else {
            "-I"@
        },
        "PREROUTING"@,
        "-p"@,
        "tcp"@,
        "-m"@,
        "tcp"@,
        "--dport"@,
        dec_chars(port as nat),
        "-j"@,
        "DNAT"@,
        "--to-destination"@,
        ip,
    ]
}

/// Keeps the DNAT rules of a forwarded container alive for its
/// lifetime: built with the namespace file, the guest ip and the
/// forwarded ports; its methods plan the iptables invocations.
pub struct PortForwardGuard {
    pub nspath: String,
    pub ip: String,
    pub ports: Vec<u16>,
}

fn iptables_rule_args(port: u16, ip: &String, delete: bool) -> (r: Vec<String>)
    ensures
        r.deep_view() == spec_iptables_rule(port, ip@, delete),
{
    let mut r: Vec<String> = Vec::new();
    r.push(String::from_str("-t"));
    r.push(String::from_str("nat"));
    if delete {
        r.push(String::from_str("-D"));
    } else {
        r.push(String::from_str("-I"));
    }
    r.push(String::from_str("PREROUTING"));
    r.push(String::from_str("-p"));
    r.push(String::from_str("tcp"));
    r.push(String::from_str("-m"));
    r.push(String::from_str("tcp"));
    r.push(String::from_str("--dport"));
    r.push(concat_decimal(String::new(), port as u64));
    r.push(String::from_str("-j"));
    r.push(String::from_str("DNAT"));
    r.push(String::from_str("--to-destination"));
    r.push(ip.clone());
    proof {
        assert(Seq::<char>::empty() + dec_chars(port as nat) =~= dec_chars(port as nat));
        assert(r.deep_view() =~~= spec_iptables_rule(port, ip@, delete));
    }
    r
}

impl PortForwardGuard {
    pub fn new(ns: String, ip: String, ports: Vec<u16>) -> (r: PortForwardGuard)
        ensures
            r.nspath == ns,
            r.ip == ip,
            r.ports == ports,
    {
        PortForwardGuard { nspath: ns, ip, ports }
    }

    /// The iptables invocations that install one DNAT rule per
    /// forwarded port, to run after joining the guard's namespace.
    pub fn start_forwarding(&self) -> (r: Vec<Vec<String>>)
        ensures
            r@.len() == self.ports@.len(),
            forall|i: int|
                0 <= i < r@.len() ==> (#[trigger] r@[i]).deep_view() == spec_iptables_rule(
                    self.ports@[i],
                    self.ip@,
                    false,
                ),
    {
        self.rules(false)
    }

    /// The iptables invocations that delete the same rules again.
    pub fn stop_forwarding(&self) -> (r: Vec<Vec<String>>)
        ensures
            r@.len() == self.ports@.len(),
            forall|i: int|
                0 <= i < r@.len() ==> (#[trigger] r@[i]).deep_view() == spec_iptables_rule(
                    self.ports@[i],
                    self.ip@,
                    true,
                ),
    {
        self.rules(true)
    }

    fn rules(&self, delete: bool) -> (r: Vec<Vec<String>>)
        ensures
            r@.len() == self.ports@.len(),
            forall|i: int|
                0 <= i < r@.len() ==> (#[trigger] r@[i]).deep_view() == spec_iptables_rule(
                    self.ports@[i],
                    self.ip@,
                    delete,
                ),
    {
        let mut r: Vec<Vec<String>> = Vec::new();
        let mut i: usize = 0;
        while i < self.ports.len()
            invariant
                i <= self.ports@.len(),
                r@.len() == i,
                forall|j: int|
                    0 <= j < i ==> (#[trigger] r@[j]).deep_view() == spec_iptables_rule(
                        self.ports@[j],
                        self.ip@,
                        delete,
                    ),
            decreases self.ports@.len() - i,
        {
            r.push(iptables_rule_args(self.ports[i], &self.ip, delete));
            i += 1;
        }
        r
    }
}

} // verus!
