//! The immutable server configuration, the bootstrap plan derived from it,
//! and the rule that picks the address the TCP listener binds to.

use vstd::prelude::*;

verus! {

/// Immutable snapshot of everything the server is configured with; read-only
/// for the reactor's lifetime.
pub struct Config {
    pub dev_path: String,
    pub port: u16,
    pub net_iface: Option<String>,
    pub no_tcp: bool,
    pub socket_path: Option<String>,
    pub baudrate: u32,
    pub daemonize: bool,
}

/// One local network interface, as enumerated by the surrounding process:
/// its name and one numeric address bound to it.
pub struct IfaceAddr {
    pub name: String,
    pub addr: String,
}

/// The names of an interface list, in order.
pub open spec fn iface_names(ifaces: Seq<IfaceAddr>) -> Seq<Seq<char>> {
    ifaces.map_values(|entry: IfaceAddr| entry.name@)
}

/// The "bind all interfaces" fallback address.
pub open spec fn spec_unspecified_addr() -> Seq<char> {
    "0.0.0.0"@
}

/// Which listeners the bootstrap opens: the TCP listener unless disabled,
/// the Unix listener when a socket path is configured.
pub struct ListenerPlan {
    pub bind_tcp: bool,
    pub bind_unix: bool,
}

impl Config {
    /// The address the TCP listener binds to, as a function of the
    /// configured interface name and the enumerated interface list: the
    /// address of the first interface whose name matches exactly, and the
    /// unspecified address when no name is configured or none matches.
    pub open spec fn spec_ip(self, ifaces: Seq<IfaceAddr>) -> Seq<char> {
        match self.net_iface {
            Some(name) => match iface_names(ifaces).index_of_first(name@) {
                Some(i) => ifaces[i].addr@,
                None => spec_unspecified_addr(),
            },
            None => spec_unspecified_addr(),
        }
    }

    /// Picks the bind address from the enumerated interface list.
    pub fn get_ip(&self, ifaces: &Vec<IfaceAddr>) -> (ip: String)
        ensures
            ip@ == self.spec_ip(ifaces@),
    {
        match self.net_iface.as_ref() {
            None => "0.0.0.0".to_owned(),
            Some(name) => {
                let n = ifaces.len();
                let mut i: usize = 0;
                while i < n
                    invariant
                        i <= n,
                        n == ifaces@.len(),
                        self.net_iface is Some && self.net_iface->0 == *name,
                        forall|j: int|
                            0 <= j < i ==> #[trigger] ifaces@[j].name@ != name@,
                    decreases n - i,
                {
                    let entry = &ifaces[i];
                    if name.eq(&entry.name) {
                        proof {
                            lemma_first_iface_match(ifaces@, name@, i as int);
                        }
                        return entry.addr.clone();
                    }
                    i += 1;
                }
                proof {
                    lemma_no_iface_match(ifaces@, name@);
                }
                "0.0.0.0".to_owned()
            },
        }
    }

    /// Derives the bootstrap listener plan from the configuration.
    pub fn listener_plan(&self) -> (plan: ListenerPlan)
        ensures
            plan.bind_tcp == !self.no_tcp,
            plan.bind_unix == (self.socket_path is Some),
    {
        ListenerPlan { bind_tcp: !self.no_tcp, bind_unix: self.socket_path.is_some() }
    }
}

/// If the interfaces before index `i` all miss the name and the one at `i`
/// matches it, then `i` is the first match.
proof fn lemma_first_iface_match(ifaces: Seq<IfaceAddr>, name: Seq<char>, i: int)
    requires
        0 <= i < ifaces.len(),
        ifaces[i].name@ == name,
        forall|j: int| 0 <= j < i ==> #[trigger] ifaces[j].name@ != name,
    ensures
        iface_names(ifaces).index_of_first(name) == Some(i),
{
    let names = iface_names(ifaces);
    assert(names[i] == name);
    names.index_of_first_ensures(name);
    let found = names.index_of_first(name)->0;
    if found < i {
        assert(ifaces[found].name@ != name);
    }
}

/// If no interface matches the name, the lookup finds nothing.
proof fn lemma_no_iface_match(ifaces: Seq<IfaceAddr>, name: Seq<char>)
    requires
        forall|j: int| 0 <= j < ifaces.len() ==> #[trigger] ifaces[j].name@ != name,
    ensures
        iface_names(ifaces).index_of_first(name) is None,
{
    let names = iface_names(ifaces);
    names.index_of_first_ensures(name);
    if names.index_of_first(name) is Some {
        let found = names.index_of_first(name)->0;
        assert(ifaces[found].name@ != name);
    }
}

} // verus!
