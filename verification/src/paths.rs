//! Construction of the filesystem paths through which the kernel exposes
//! namespace handles: `/proc/<pid>/ns/<kind>` for process-identified
//! namespaces, and the well-known runtime directory for named network
//! namespaces; and validation of how a network target is identified.

use vstd::prelude::*;

verus! {

/// The decimal digit character for a value below ten.
pub open spec fn digit_char(d: nat) -> char {
    if d == 0 {
        '0'
    } else if d == 1 {
        '1'
    } else if d == 2 {
        '2'
    } else if d == 3 {
        '3'
    } else if d == 4 {
        '4'
    } else if d == 5 {
        '5'
    } else if d == 6 {
        '6'
    } else if d == 7 {
        '7'
    } else if d == 8 {
        '8'
    } else {
        '9'
    }
}

/// The decimal representation of a number, most significant digit first,
/// without leading zeros (a single zero for zero itself).
pub open spec fn dec_rep(n: nat) -> Seq<char>
    decreases n,
{
    if n < 10 {
        seq![digit_char(n)]
    } else {
        dec_rep(n / 10) + seq![digit_char(n % 10)]
    }
}

fn digit_str(d: u32) -> (r: &'static str)
    requires
        d < 10,
    ensures
        r@ == seq![digit_char(d as nat)],
{
    let r: &'static str = if d == 0 {
        "0"
    } else if d == 1 {
        "1"
    } else if d == 2 {
        "2"
    } else if d == 3 {
        "3"
    } else if d == 4 {
        "4"
    } else if d == 5 {
        "5"
    } else if d == 6 {
        "6"
    } else if d == 7 {
        "7"
    } else if d == 8 {
        "8"
    } else {
        "9"
    };
    proof {
        reveal_strlit("0");
        reveal_strlit("1");
        reveal_strlit("2");
        reveal_strlit("3");
        reveal_strlit("4");
        reveal_strlit("5");
        reveal_strlit("6");
        reveal_strlit("7");
        reveal_strlit("8");
        reveal_strlit("9");
        assert(r@ =~= seq![digit_char(d as nat)]);
    }
    r
}

/// Formats a number in decimal.
pub fn u32_to_decimal(n: u32) -> (s: String)
    ensures
        s@ == dec_rep(n as nat),
    decreases n,
{
    if n < 10 {
        digit_str(n).to_owned()
    } else {
        proof {
            assert(n / 10 < n) by (nonlinear_arith)
                requires
                    n >= 10,
            ;
        }
        let high = u32_to_decimal(n / 10);
        let low = digit_str(n % 10);
        high.concat(low)
    }
}

/// Which kind of kernel namespace a handle or a switch concerns. It selects
/// the handle path and which observation probe is valid after a switch.
#[derive(Clone, Copy, Debug, PartialEq, Eq, Structural)]
pub enum NamespaceKind {
    Mount,
    Network,
}

/// The path of a process's mount-namespace handle.
pub open spec fn mnt_ns_path_spec(pid: nat) -> Seq<char> {
    "/proc/"@ + dec_rep(pid) + "/ns/mnt"@
}

/// The path of a process's network-namespace handle.
pub open spec fn net_ns_path_spec(pid: nat) -> Seq<char> {
    "/proc/"@ + dec_rep(pid) + "/ns/net"@
}

/// The path of a named network namespace in the well-known runtime registry.
pub open spec fn named_netns_path_spec(name: Seq<char>) -> Seq<char> {
    "/var/run/netns/"@ + name
}

/// The handle path for a namespace of the given kind of the given process.
pub open spec fn ns_path_spec(kind: NamespaceKind, pid: nat) -> Seq<char> {
    match kind {
        NamespaceKind::Mount => mnt_ns_path_spec(pid),
        NamespaceKind::Network => net_ns_path_spec(pid),
    }
}

/// Builds the handle path for a namespace of the given kind of the given
/// process.
pub fn ns_path(kind: NamespaceKind, pid: u32) -> (r: String)
    ensures
        r@ == ns_path_spec(kind, pid as nat),
{
    let num = u32_to_decimal(pid);
    let tail: &str = match kind {
        NamespaceKind::Mount => "/ns/mnt",
        NamespaceKind::Network => "/ns/net",
    };
    let r = "/proc/".to_owned().concat(num.as_str()).concat(tail);
    proof {
        assert(r@ =~= "/proc/"@ + dec_rep(pid as nat) + tail@);
    }
    r
}

/// Builds the registry path of a named network namespace.
pub fn named_netns_path(name: &str) -> (r: String)
    ensures
        r@ == named_netns_path_spec(name@),
{
    "/var/run/netns/".to_owned().concat(name)
}

/// Rejection of a network-test request that identifies no target namespace.
#[derive(Clone, Copy, Debug, PartialEq, Eq, Structural)]
pub enum TargetError {
    Missing,
}

impl TargetError {
    /// A human-readable account of the rejection.
    pub fn message(&self) -> (r: String)
        ensures
            r@ == "either a namespace name or a PID must be provided"@,
    {
        "either a namespace name or a PID must be provided".to_owned()
    }
}

/// Resolves how a network target namespace was identified into the path of
/// its handle: by the PID of a process using it when a PID is given, else by
/// its registry name; a request that carries neither is rejected before any
/// namespace operation.
pub fn net_target_path(name: &Option<String>, pid: Option<u32>) -> (r: Result<
    String,
    TargetError,
>)
    ensures
        r is Err <==> (name is None && pid is None),
        match r {
            Ok(path) => match pid {
                Some(p) => path@ == net_ns_path_spec(p as nat),
                None => name is Some && path@ == named_netns_path_spec(name->0@),
            },
            Err(e) => e == TargetError::Missing,
        },
{
    match pid {
        Some(p) => Ok(ns_path(NamespaceKind::Network, p)),
        None => match name {
            Some(n) => Ok(named_netns_path(n.as_str())),
            None => Err(TargetError::Missing),
        },
    }
}

} // verus!
