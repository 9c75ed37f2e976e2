//! The transport abstraction: a closed tagged variant over the two client
//! connection kinds, TCP and Unix-domain. The actual sockets live with the
//! surrounding process; here a connection is its stable descriptor plus, for
//! TCP, the rendered peer address, which is all the reactor's bookkeeping
//! and diagnostics read.

use vstd::prelude::*;
use vstd::string::StringExecFns;

verus! {

/// One client connection, tagged with its kind and its raw descriptor.
#[derive(Debug, PartialEq, Eq)]
pub enum Stream {
    /// A TCP connection; `peer` is the rendered peer address.
    Tcp { fd: u64, peer: String },
    /// A Unix-domain connection; it has no meaningful peer address.
    Unix { fd: u64 },
}

/// The decimal digit characters, lowest value first.
pub open spec fn spec_digit_char(d: u64) -> char {
    if d == 0 {
        '0'
    } else if d == 1 {
        '1'
    } else if d == 2 {
        '2'
    } else if d == 3 {
        '3'
    } else if d == 4 {
        '4'
    } else if d == 5 {
        '5'
    } else if d == 6 {
        '6'
    } else if d == 7 {
        '7'
    } else if d == 8 {
        '8'
    } else {
        '9'
    }
}

/// The decimal rendering of a number, most significant digit first, with no
/// leading zeros (a single zero for zero itself).
pub open spec fn spec_digits(n: u64) -> Seq<char>
    decreases n,
{
    if n < 10 {
        seq![spec_digit_char(n)]
    } else {
        spec_digits((n / 10) as u64).push(spec_digit_char((n % 10) as u64))
    }
}

/// One decimal digit as a string.
fn digit_str(d: u64) -> (s: &'static str)
    requires
        d < 10,
    ensures
        s@ == seq![spec_digit_char(d)],
{
    proof {
        reveal_strlit("0");
        reveal_strlit("1");
        reveal_strlit("2");
        reveal_strlit("3");
        reveal_strlit("4");
        reveal_strlit("5");
        reveal_strlit("6");
        reveal_strlit("7");
        reveal_strlit("8");
        reveal_strlit("9");
    }
    let s = if d == 0 {
        "0"
    } else if d == 1 {
        "1"
    } else if d == 2 {
        "2"
    } else if d == 3 {
        "3"
    } else if d == 4 {
        "4"
    } else if d == 5 {
        "5"
    } else if d == 6 {
        "6"
    } else if d == 7 {
        "7"
    } else if d == 8 {
        "8"
    } else {
        "9"
    };
    proof {
        assert(s@ =~= seq![spec_digit_char(d)]);
    }
    s
}

/// Renders a number in decimal.
pub fn u64_to_dec_string(n: u64) -> (s: String)
    ensures
        s@ == spec_digits(n),
    decreases n,
{
    if n < 10 {
        String::from_str(digit_str(n))
    } else {
        proof {
            assert(n / 10 < n) by (nonlinear_arith)
                requires
                    10 <= n,
            ;
        }
        let prefix = u64_to_dec_string(n / 10);
        let s = prefix.concat(digit_str(n % 10));
        proof {
            assert(s@ =~= spec_digits(n));
        }
        s
    }
}

impl Stream {
    /// The stable descriptor the connection is keyed by.
    pub open spec fn spec_fd(self) -> u64 {
        match self {
            Stream::Tcp { fd, .. } => fd,
            Stream::Unix { fd } => fd,
        }
    }

    /// The diagnostic label: the peer address when the transport has one, a
    /// fixed placeholder plus the descriptor number for Unix-domain
    /// connections.
    pub open spec fn spec_describe(self) -> Seq<char> {
        match self {
            Stream::Tcp { peer, .. } => "tcp client "@ + peer@,
            Stream::Unix { fd } => "unix client fd "@ + spec_digits(fd),
        }
    }

    /// The raw descriptor of either connection kind.
    pub fn as_raw_fd(&self) -> (fd: u64)
        ensures
            fd == self.spec_fd(),
    {
        match self {
            Stream::Tcp { fd, .. } => *fd,
            Stream::Unix { fd } => *fd,
        }
    }

    /// Renders the diagnostic label for connect/disconnect log lines.
    pub fn describe(&self) -> (s: String)
        ensures
            s@ == self.spec_describe(),
    {
        match self {
            Stream::Tcp { peer, .. } => String::from_str("tcp client ").concat(peer.as_str()),
            Stream::Unix { fd } => {
                let digits = u64_to_dec_string(*fd);
                String::from_str("unix client fd ").concat(digits.as_str())
            },
        }
    }
}

} // verus!
