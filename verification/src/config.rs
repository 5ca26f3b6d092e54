//! Listen addresses of the server as its configuration writes them: an
//! address with or without a port, and the default port in between.

use vstd::prelude::*;
use crate::text::{split_on, split_by};
use crate::permission::PermRule;
use crate::role::RoleIdentifier;
use std::collections::HashMap;

verus! {

/// The default port, in the free-use range.
pub const DEFAULT_PORT: u16 = 59661;

/// `String::push`: the character goes at the end.
pub assume_specification[ String::push ](s: &mut String, ch: char)
    ensures
        final(s)@ == old(s)@.push(ch),
;

/// The decimal digit for a value below ten.
pub open spec fn digit_char(d: int) -> char {
    ((48 + d) as u8) as char
}

/// The decimal digits of `n`, most significant first, without leading
/// zeros.
pub open spec fn decimal(n: nat) -> Seq<char>
    decreases n,
{
    if n < 10 {
        seq![digit_char(n as int)]
    } else {
        decimal(n / 10).push(digit_char((n % 10) as int))
    }
}

/// Appends the decimal digits of `n` to `s`.
pub fn push_decimal(s: &mut String, n: u16)
    ensures
        final(s)@ == old(s)@ + decimal(n as nat),
    decreases n,
{
    if n >= 10 {
        push_decimal(s, n / 10);
    }
    let d: u8 = (n % 10) as u8;
    s.push((d + 48u8) as char);
    assert(s@ =~= old(s)@ + decimal(n as nat));
}

/// Whether `c` is an ASCII decimal digit.
pub open spec fn is_digit(c: char) -> bool {
    '0' <= c && c <= '9'
}

/// The value of a string of decimal digits.
pub open spec fn decimal_value(d: Seq<char>) -> nat
    decreases d.len(),
{
    if d.len() == 0 {
        0
    } else {
        decimal_value(d.drop_last()) * 10 + ((d.last() as int - 48) as nat)
    }
}

/// The digits of a number as `u16::from_str` reads it: one leading `+` is
/// allowed.
pub open spec fn unsigned_digits(s: Seq<char>) -> Seq<char> {
    if s.len() > 0 && s[0] == '+' {
        s.drop_first()
    } else {
        s
    }
}

/// Whether `s` is a port number: at least one digit, nothing but digits
/// after an optional `+`, and a value that fits sixteen bits.
pub open spec fn is_port(s: Seq<char>) -> bool {
    let d = unsigned_digits(s);
    &&& d.len() > 0
    &&& forall|i: int| 0 <= i < d.len() ==> is_digit(#[trigger] d[i])
    &&& decimal_value(d) <= 65535
}

proof fn lemma_decimal_value_prefix(d: Seq<char>, k: int)
    requires
        0 <= k <= d.len(),
        forall|i: int| 0 <= i < d.len() ==> is_digit(#[trigger] d[i]),
    ensures
        decimal_value(d.take(k)) <= decimal_value(d),
    decreases d.len(),
{
    if k < d.len() {
        assert(d.drop_last().take(k) =~= d.take(k));
        lemma_decimal_value_prefix(d.drop_last(), k);
    } else {
        assert(d.take(k) =~= d);
    }
}

/// Reads a port number as `u16::from_str` does.
pub fn parse_port(s: &str) -> (r: Option<u16>)
    ensures
        is_port(s@) ==> r == Some(decimal_value(unsigned_digits(s@)) as u16),
        !is_port(s@) ==> r is None,
{
    let n = s.unicode_len();
    let mut start: usize = 0;
    if n > 0 && s.get_char(0) == '+' {
        start = 1;
    }
    let ghost d = unsigned_digits(s@);
    assert(d =~= s@.subrange(start as int, n as int));
    if start == n {
        return None;
    }
    let mut acc: u32 = 0;
    let mut i: usize = start;
    while i < n
        invariant
            n == s@.len(),
            start <= i <= n,
            d == s@.subrange(start as int, n as int),
            d == unsigned_digits(s@),
            forall|j: int| 0 <= j < i - start ==> is_digit(#[trigger] d[j]),
            acc == decimal_value(d.take(i - start)),
            acc <= 65535,
        decreases n - i,
    {
        let c = s.get_char(i);
        assert(c == d[i - start]);
        if !('0' <= c && c <= '9') {
            assert(!is_digit(d[i - start]));
            return None;
        }
        let v: u32 = (c as u32) - 48;
        assert(d.take(i - start + 1).drop_last() =~= d.take(i - start));
        assert(d.take(i - start + 1).last() == c);
        acc = acc * 10 + v;
        i = i + 1;
        assert(acc == decimal_value(d.take(i - start)));
        if acc > 65535 {
            proof {
                if forall|j: int| 0 <= j < d.len() ==> is_digit(#[trigger] d[j]) {
                    lemma_decimal_value_prefix(d, i - start);
                }
            }
            return None;
        }
    }
    assert(d.take(n - start) =~= d);
    Some(acc as u16)
}

/// An address to listen on, with its port if the configuration gives one.
#[derive(Clone, Debug)]
pub struct Listen {
    address: String,
    port: Option<u16>,
}

/// Why a listen address was refused.
#[derive(Clone, Copy, Debug, PartialEq, Eq, Structural)]
pub enum ListenError {
    /// The part after the colon is not a port number.
    InvalidPort,
}

/// `address` and `port`, joined by a colon.
pub open spec fn host_port(address: Seq<char>, port: u16) -> Seq<char> {
    address + seq![':'] + decimal(port as nat)
}

/// What `host` or `host:port` reads as: the address and the port, or
/// nothing when the port is not a number.
pub open spec fn parsed_host_port(v: Seq<char>) -> Option<(Seq<char>, Option<u16>)> {
    let parts = split_on(v, ':');
    if parts.len() >= 2 {
        if is_port(parts[1]) {
            Some((parts[0], Some(decimal_value(unsigned_digits(parts[1])) as u16)))
        } else {
            None
        }
    } else {
        Some((v, None))
    }
}

/// Whether `r` is the listen address `p` describes, or the refusal where
/// it describes none.
pub open spec fn listen_matches(r: Result<Listen, ListenError>, p: Option<(Seq<char>, Option<u16>)>) -> bool {
    match p {
        None => r matches Err(ListenError::InvalidPort),
        Some(ap) => r matches Ok(l) && l.address_view() == ap.0 && l.port_view() == ap.1,
    }
}

impl Listen {
    /// The address, as the contracts see it.
    pub closed spec fn address_view(&self) -> Seq<char> {
        self.address@
    }

    /// The configured port, as the contracts see it.
    pub closed spec fn port_view(&self) -> Option<u16> {
        self.port
    }

    /// A listen address made of its parts.
    pub fn new(address: String, port: Option<u16>) -> (l: Listen)
        ensures
            l.address_view() == address@,
            l.port_view() == port,
    {
        Listen { address, port }
    }

    /// The address.
    pub fn address(&self) -> (a: &str)
        ensures
            a@ == self.address_view(),
    {
        self.address.as_str()
    }

    /// The configured port, if any.
    pub fn port(&self) -> (p: Option<u16>)
        ensures
            p == self.port_view(),
    {
        self.port
    }

    /// The port to bind: the configured one, else the default.
    pub fn effective_port(&self) -> (p: u16)
        ensures
            p == match self.port_view() {
                Some(q) => q,
                None => DEFAULT_PORT,
            },
    {
        match self.port {
            Some(q) => q,
            None => DEFAULT_PORT,
        }
    }

    /// The address and the port to bind, as `address:port`.
    pub fn to_string(&self) -> (s: String)
        ensures
            s@ == host_port(self.address_view(), match self.port_view() {
                Some(q) => q,
                None => DEFAULT_PORT,
            }),
    {
        let mut s = String::from_str(self.address.as_str());
        s.push(':');
        push_decimal(&mut s, self.effective_port());
        s
    }

    /// The address as the configuration writes it: `address:port` where a
    /// port is given, the bare address where none is.
    pub fn to_config_string(&self) -> (s: String)
        ensures
            s@ == match self.port_view() {
                Some(q) => host_port(self.address_view(), q),
                None => self.address_view(),
            },
    {
        let mut s = String::from_str(self.address.as_str());
        match self.port {
            Some(q) => {
                s.push(':');
                push_decimal(&mut s, q);
            },
            None => {},
        }
        s
    }

    /// Reads `host` or `host:port`: the host is what stands before the first
    /// colon, the port what stands between the first and a second one.
    pub fn parse_host_port(v: &str) -> (r: Result<Listen, ListenError>)
        ensures
            listen_matches(r, parsed_host_port(v@)),
    {
        proof {
            crate::text::lemma_split_on_nonempty(v@, ':');
        }
        let parts = split_by(v, ':');
        let address = parts[0].clone();
        if parts.len() >= 2 {
            match parse_port(parts[1].as_str()) {
                Some(p) => Ok(Listen { address, port: Some(p) }),
                None => Err(ListenError::InvalidPort),
            }
        } else {
            proof {
                lemma_single_part(v@);
            }
            Ok(Listen { address, port: None })
        }
    }

    /// Reads a listen address from the configuration, given what the
    /// standard library made of it as a socket address (the address in
    /// text and the port) and as a bare IP address (in text): a socket
    /// address wins, then an IP address, then `host` or `host:port`.
    pub fn from_config_str(v: &str, socket: Option<(String, u16)>, ip: Option<String>) -> (r: Result<
        Listen,
        ListenError,
    >)
        ensures
            socket matches Some(sa) ==> (r matches Ok(l) && l.address_view() == sa.0@ && l.port_view()
                == Some(sa.1)),
            socket is None ==> (ip matches Some(a) ==> (r matches Ok(l) && l.address_view() == a@
                && l.port_view() is None)),
            socket is None && ip is None ==> listen_matches(r, parsed_host_port(v@)),
    {
        match socket {
            Some(sa) => Ok(Listen { address: sa.0, port: Some(sa.1) }),
            None => match ip {
                Some(a) => Ok(Listen { address: a, port: None }),
                None => {
                    let r = Listen::parse_host_port(v);
                    proof {
                        crate::text::lemma_split_on_nonempty(v@, ':');
                    }
                    r
                },
            },
        }
    }
}

proof fn lemma_single_part(s: Seq<char>)
    requires
        split_on(s, ':').len() == 1,
    ensures
        split_on(s, ':')[0] == s,
    decreases s.len(),
{
    if s.len() > 0 {
        let prev = split_on(s.drop_last(), ':');
        crate::text::lemma_split_on_nonempty(s.drop_last(), ':');
        if s.last() == ':' {
            assert(false);
        } else {
            lemma_single_part(s.drop_last());
            assert(s.drop_last().push(s.last()) =~= s);
        }
    }
}

proof fn lemma_split_without_separator(a: Seq<char>)
    requires
        !a.contains(':'),
    ensures
        split_on(a, ':') == seq![a],
    decreases a.len(),
{
    if a.len() > 0 {
        assert(!a.drop_last().contains(':')) by {
            if a.drop_last().contains(':') {
                let i = choose|i: int| 0 <= i < a.drop_last().len() && a.drop_last()[i] == ':';
                assert(a[i] == ':');
            }
        }
        lemma_split_without_separator(a.drop_last());
        assert(a[a.len() - 1] != ':');
        assert(a.drop_last().push(a.last()) =~= a);
        let prev = split_on(a.drop_last(), ':');
        assert(split_on(a, ':') == prev.update(0, a.drop_last().push(a.last())));
        assert(split_on(a, ':') =~= seq![a]);
    } else {
        assert(a =~= Seq::<char>::empty());
    }
}

proof fn lemma_split_one_separator(a: Seq<char>, b: Seq<char>)
    requires
        !a.contains(':'),
        !b.contains(':'),
    ensures
        split_on(a + seq![':'] + b, ':') == seq![a, b],
    decreases b.len(),
{
    let s = a + seq![':'] + b;
    if b.len() == 0 {
        lemma_split_without_separator(a);
        assert(s.drop_last() =~= a);
        assert(s.last() == ':');
        assert(b =~= Seq::<char>::empty());
        assert(split_on(s, ':') =~= seq![a, b]);
    } else {
        assert(!b.drop_last().contains(':')) by {
            if b.drop_last().contains(':') {
                let i = choose|i: int| 0 <= i < b.drop_last().len() && b.drop_last()[i] == ':';
                assert(b[i] == ':');
            }
        }
        lemma_split_one_separator(a, b.drop_last());
        assert((a + seq![':'] + b).drop_last() =~= a + seq![':'] + b.drop_last());
        assert(b[b.len() - 1] != ':');
        assert(s.last() == b.last());
        assert(b.drop_last().push(b.last()) =~= b);
        let prev = split_on(s.drop_last(), ':');
        assert(split_on(s, ':') == prev.update(1, b.drop_last().push(b.last())));
        assert(split_on(s, ':') =~= seq![a, b]);
    }
}

proof fn lemma_decimal_digits(n: nat)
    ensures
        decimal(n).len() > 0,
        forall|i: int| 0 <= i < decimal(n).len() ==> is_digit(#[trigger] decimal(n)[i]),
        decimal_value(decimal(n)) == n,
    decreases n,
{
    let d = (n % 10) as int;
    assert(digit_char(d) as int == 48 + d);
    if n >= 10 {
        lemma_decimal_digits(n / 10);
        assert(decimal(n).drop_last() =~= decimal(n / 10));
        assert(decimal(n).last() == digit_char(d));
        assert(decimal_value(decimal(n)) == decimal_value(decimal(n / 10)) * 10 + (decimal(n).last() as int - 48));
        assert((n / 10) * 10 + n % 10 == n);
    } else {
        assert(decimal(n).drop_last() =~= Seq::<char>::empty());
        assert(decimal_value(Seq::<char>::empty()) == 0);
        assert(decimal_value(decimal(n)) == decimal_value(decimal(n).drop_last()) * 10 + (decimal(n).last() as int - 48));
    }
}

/// Writing a listen address out for the configuration and reading it back
/// gives the same address and port, for every address without a colon
/// (IPv6 addresses, which have colons, are read as socket or IP addresses
/// before this reading is tried).
pub proof fn law_listen_config_round_trip(address: Seq<char>, port: Option<u16>)
    requires
        !address.contains(':'),
    ensures
        parsed_host_port(
            match port {
                Some(q) => host_port(address, q),
                None => address,
            },
        ) == Some((address, port)),
{
    match port {
        None => {
            lemma_split_without_separator(address);
        },
        Some(q) => {
            let d = decimal(q as nat);
            lemma_decimal_digits(q as nat);
            assert(!d.contains(':')) by {
                if d.contains(':') {
                    let i = choose|i: int| 0 <= i < d.len() && d[i] == ':';
                    assert(is_digit(d[i]));
                }
            }
            lemma_split_one_separator(address, d);
            assert(is_digit(d[0]));
            assert(unsigned_digits(d) == d);
        },
    }
}

/// The configuration of a role: its parents and the rules it grants.
#[derive(Clone)]
pub struct RoleConfig {
    pub parents: Vec<RoleIdentifier>,
    pub permissions: Vec<PermRule>,
}

/// The configuration of a module: which module, with which parameters.
#[derive(Clone)]
pub struct ModuleConfig {
    pub module: String,
    pub params: HashMap<String, String>,
}

} // verus!
