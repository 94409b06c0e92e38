//! Peer addresses: `host:port` parsing with hostname validation, and the
//! `PUBLIC_KEY_HEX@HOST:PORT` bootstrap peer format.

use crate::dkg::network::{ed25519_key_decodes, ed25519_key_is_valid};
use crate::hexstr::{hex_bytes, hex_decode, hex_decodes};
use vstd::prelude::*;

verus! {

/// Maximum length of a hostname.
pub const MAX_HOSTNAME_LEN: usize = 253;

/// Maximum length of a hostname label.
pub const MAX_HOSTNAME_LABEL_LEN: usize = 63;

/// Whether a character may appear in a hostname label.
pub open spec fn label_char(c: char) -> bool {
    ('a' <= c <= 'z') || ('A' <= c <= 'Z') || ('0' <= c <= '9') || c == '-'
}

/// RFC 1035/1123 hostnames as commonware's `Hostname` documents them: at
/// most 253 characters; labels (parts between dots) not empty, at most 63
/// characters of ASCII letters, digits and hyphens, not starting or ending
/// with a hyphen.
pub open spec fn valid_hostname(s: Seq<char>) -> bool {
    &&& 0 < s.len() <= MAX_HOSTNAME_LEN
    &&& forall|i: int| 0 <= i < s.len() ==> label_char(#[trigger] s[i]) || s[i] == '.'
    &&& s[0] != '.' && s[s.len() - 1] != '.'
    &&& forall|i: int| 0 <= i < s.len() - 1 && #[trigger] s[i] == '.' ==> s[i + 1] != '.'
    &&& forall|i: int|
        0 <= i < s.len() && #[trigger] s[i] == '-' ==> i > 0 && s[i - 1] != '.' && i < s.len() - 1
            && s[i + 1] != '.'
    &&& forall|i: int, j: int|
        #![trigger s[i], s[j]]
        0 <= i && i + MAX_HOSTNAME_LABEL_LEN <= j < s.len() ==> exists|k: int| i <= k <= j && #[trigger] s[k] == '.'
}

/// Validates a hostname with `commonware_utils::Hostname::new`. Claimed: it
/// accepts exactly the hostnames its documentation describes.
#[verifier::external_body]
pub(crate) fn hostname_is_valid(host: &str) -> (r: bool)
    ensures
        r == valid_hostname(host@),
{
    commonware_utils::Hostname::new(host).is_ok()
}

/// The value of a string of decimal digits.
pub open spec fn digits_value(s: Seq<char>) -> nat
    decreases s.len(),
{
    if s.len() == 0 {
        0
    } else {
        digits_value(s.drop_last()) * 10 + ((s.last() as u32) - 48) as nat
    }
}

/// Whether every character is a decimal digit.
pub open spec fn all_digits(s: Seq<char>) -> bool {
    forall|i: int| 0 <= i < s.len() ==> '0' <= #[trigger] s[i] <= '9'
}

/// A port number as `u16`'s `FromStr` reads it: an optional `+`, then one
/// or more decimal digits whose value fits in 16 bits.
pub open spec fn parsed_port(s: Seq<char>) -> Option<u16> {
    let d = if s.len() > 0 && s[0] == '+' {
        s.drop_first()
    } else {
        s
    };
    if d.len() > 0 && all_digits(d) && digits_value(d) <= 65535 {
        Some(digits_value(d) as u16)
    } else {
        None
    }
}

proof fn lemma_digits_prefix_monotone(s: Seq<char>, i: int)
    requires
        0 <= i <= s.len(),
        all_digits(s),
    ensures
        digits_value(s.take(i)) <= digits_value(s),
    decreases s.len(),
{
    if i < s.len() {
        lemma_digits_prefix_monotone(s.drop_last(), i);
        assert(s.drop_last().take(i) =~= s.take(i));
    } else {
        assert(s.take(i) =~= s);
    }
}

/// Parses a port number the way `u16`'s `FromStr` does.
pub fn parse_port(s: &str) -> (r: Option<u16>)
    ensures
        r == parsed_port(s@),
{
    let n = s.unicode_len();
    let mut i: usize = 0;
    if n > 0 && s.get_char(0) == '+' {
        i = 1;
    }
    let start = i;
    let ghost d = if s@.len() > 0 && s@[0] == '+' {
        s@.drop_first()
    } else {
        s@
    };
    assert(d =~= s@.subrange(start as int, n as int));
    if start == n {
        return None;
    }
    let mut value: u64 = 0;
    while i < n
        invariant
            start <= i <= n,
            n == s@.len(),
            d == s@.subrange(start as int, n as int),
            d == (if s@.len() > 0 && s@[0] == '+' {
                s@.drop_first()
            } else {
                s@
            }),
            d.len() > 0,
            all_digits(d.take(i - start)),
            value == digits_value(d.take(i - start)),
            value <= 65535,
        decreases n - i,
    {
        let c = s.get_char(i);
        if !('0' <= c && c <= '9') {
            proof {
                assert(d[i - start] == c);
            }
            return None;
        }
        proof {
            assert(d.take(i - start + 1).drop_last() =~= d.take(i - start));
            assert(d.take(i - start + 1).last() == c);
        }
        value = value * 10 + (c as u64 - 48);
        proof {
            assert(value == digits_value(d.take(i - start + 1)));
        }
        if value > 65535 {
            proof {
                if all_digits(d) {
                    lemma_digits_prefix_monotone(d, i - start + 1);
                }
            }
            return None;
        }
        i = i + 1;
    }
    proof {
        assert(d.take(n - start) =~= d);
    }
    Some(value as u16)
}

/// The index of the last `:` of a string, if any.
pub open spec fn last_colon(s: Seq<char>) -> Option<int> {
    if exists|k: int| 0 <= k < s.len() && s[k] == ':' {
        Some(choose|k: int| 0 <= k < s.len() && s[k] == ':' && forall|j: int| k < j < s.len() ==> s[j] != ':')
    } else {
        None
    }
}

/// Splits a string at its last `:`.
pub fn rsplit_colon(s: &str) -> (r: Option<(String, String)>)
    ensures
        match r {
            Some((a, b)) => exists|k: int|
                0 <= k < s@.len() && s@[k] == ':' && (forall|j: int| k < j < s@.len() ==> s@[j] != ':')
                    && a@ == s@.subrange(0, k) && b@ == s@.subrange(k + 1, s@.len() as int),
            None => forall|k: int| 0 <= k < s@.len() ==> s@[k] != ':',
        },
{
    let n = s.unicode_len();
    let mut i: usize = n;
    while i > 0
        invariant
            0 <= i <= n,
            n == s@.len(),
            forall|j: int| i <= j < n ==> s@[j] != ':',
        decreases i,
    {
        if s.get_char(i - 1) == ':' {
            let a = String::from_str(s.substring_char(0, i - 1));
            let b = String::from_str(s.substring_char(i, n));
            return Some((a, b));
        }
        i = i - 1;
    }
    None
}

/// The index of the first `@` of a string, if any.
pub open spec fn first_at(s: Seq<char>) -> Option<int> {
    if exists|k: int| 0 <= k < s.len() && s[k] == '@' {
        Some(choose|k: int| 0 <= k < s.len() && s[k] == '@' && forall|j: int| 0 <= j < k ==> s[j] != '@')
    } else {
        None
    }
}

proof fn lemma_first_at(s: Seq<char>, i: int)
    requires
        0 <= i < s.len(),
        s[i] == '@',
        forall|j: int| 0 <= j < i ==> s[j] != '@',
    ensures
        first_at(s) == Some(i),
{
    let k = choose|k: int| 0 <= k < s.len() && s[k] == '@' && forall|j: int| 0 <= j < k ==> s[j] != '@';
    assert(0 <= k < s.len() && s[k] == '@' && forall|j: int| 0 <= j < k ==> s[j] != '@');
    if k < i {
        assert(s[k] != '@');
    }
    if k > i {
        assert(s[i] != '@');
    }
}

/// Splits a string at its first `@`.
pub fn split_at_sign(s: &str) -> (r: Option<(String, String)>)
    ensures
        match r {
            Some((a, b)) => first_at(s@) matches Some(k) && a@ == s@.take(k) && b@ == s@.skip(k + 1),
            None => first_at(s@) is None,
        },
{
    let n = s.unicode_len();
    let mut i: usize = 0;
    while i < n
        invariant
            0 <= i <= n,
            n == s@.len(),
            forall|j: int| 0 <= j < i ==> s@[j] != '@',
        decreases n - i,
    {
        if s.get_char(i) == '@' {
            proof {
                lemma_first_at(s@, i as int);
            }
            let a = String::from_str(s.substring_char(0, i));
            let b = String::from_str(s.substring_char(i + 1, n));
            assert(a@ =~= s@.take(i as int));
            assert(b@ =~= s@.skip(i + 1));
            return Some((a, b));
        }
        i = i + 1;
    }
    None
}

/// A string without a leading `0x`.
pub open spec fn without_hex_prefix(s: Seq<char>) -> Seq<char> {
    if s.len() >= 2 && s[0] == '0' && s[1] == 'x' {
        s.skip(2)
    } else {
        s
    }
}

/// Drops a leading `0x` from a string.
pub fn strip_hex_prefix(s: &str) -> (r: String)
    ensures
        r@ == without_hex_prefix(s@),
{
    let n = s.unicode_len();
    if n >= 2 && s.get_char(0) == '0' && s.get_char(1) == 'x' {
        let r = String::from_str(s.substring_char(2, n));
        assert(r@ =~= s@.skip(2));
        r
    } else {
        assert(s@.subrange(0, n as int) =~= s@);
        String::from_str(s.substring_char(0, n))
    }
}

/// A dialable peer address.
#[derive(Debug, Clone)]
pub enum IngressAddr {
    /// An `IP:port` socket address, as written.
    Socket(String),
    /// A hostname and port.
    Dns {
        /// The validated hostname.
        host: String,
        /// The port.
        port: u16,
    },
}

/// Why a `host:port` address was refused.
#[derive(Debug, Clone)]
pub enum AddressError {
    /// No `:` separates host and port.
    MissingPort,
    /// The text after the last `:` is not a port number.
    InvalidPort(String),
    /// The text before the last `:` is not a valid hostname.
    InvalidHostname(String),
}

/// How a `host:port` address (not a socket address) is read: split at the
/// last `:`, then the port, then the hostname.
pub open spec fn host_port_outcome(s: Seq<char>) -> Result<(Seq<char>, u16), (u8, Seq<char>)> {
    match last_colon(s) {
        None => Err((0u8, s)),
        Some(k) => {
            let host = s.subrange(0, k);
            let port = s.subrange(k + 1, s.len() as int);
            match parsed_port(port) {
                None => Err((1u8, port)),
                Some(p) => if valid_hostname(host) {
                    Ok((host, p))
                } else {
                    Err((2u8, host))
                },
            }
        },
    }
}

/// The model of a `host:port` parse result.
pub open spec fn host_port_view(r: Result<(String, u16), AddressError>) -> Result<(Seq<char>, u16), (u8, Seq<char>)> {
    match r {
        Ok((h, p)) => Ok((h@, p)),
        Err(AddressError::MissingPort) => Err((0u8, Seq::empty())),
        Err(AddressError::InvalidPort(t)) => Err((1u8, t@)),
        Err(AddressError::InvalidHostname(t)) => Err((2u8, t@)),
    }
}

proof fn lemma_last_colon(s: Seq<char>, k: int)
    requires
        0 <= k < s.len(),
        s[k] == ':',
        forall|j: int| k < j < s.len() ==> s[j] != ':',
    ensures
        last_colon(s) == Some(k),
{
    let c = choose|c: int| 0 <= c < s.len() && s[c] == ':' && forall|j: int| c < j < s.len() ==> s[j] != ':';
    assert(0 <= c < s.len() && s[c] == ':' && forall|j: int| c < j < s.len() ==> s[j] != ':');
    if c < k {
        assert(s[k] != ':');
    }
    if c > k {
        assert(s[c] != ':');
    }
}

/// Reads a `host:port` address: the part after the last `:` must be a port
/// number and the part before it a valid hostname.
pub fn parse_host_port(s: &str) -> (r: Result<(String, u16), AddressError>)
    ensures
        match (host_port_outcome(s@), r) {
            (Ok(v), Ok(_)) => host_port_view(r) == Ok::<(Seq<char>, u16), (u8, Seq<char>)>(v),
            (Err((0u8, _)), Err(AddressError::MissingPort)) => true,
            (Err(e), Err(_)) => e.0 != 0u8 && host_port_view(r) == Err::<(Seq<char>, u16), (u8, Seq<char>)>(e),
            _ => false,
        },
{
    match rsplit_colon(s) {
        None => {
            assert(!(exists|k: int| 0 <= k < s@.len() && s@[k] == ':'));
            Err(AddressError::MissingPort)
        },
        Some((host, port_str)) => {
            proof {
                let k = choose|k: int|
                    0 <= k < s@.len() && s@[k] == ':' && (forall|j: int| k < j < s@.len() ==> s@[j] != ':')
                        && host@ == s@.subrange(0, k) && port_str@ == s@.subrange(k + 1, s@.len() as int);
                lemma_last_colon(s@, k);
            }
            match parse_port(port_str.as_str()) {
                None => Err(AddressError::InvalidPort(port_str)),
                Some(port) => {
                    if hostname_is_valid(host.as_str()) {
                        Ok((host, port))
                    } else {
                        Err(AddressError::InvalidHostname(host))
                    }
                },
            }
        },
    }
}

/// Reads a dialable address. `is_socket_addr` says whether the text parses
/// as an `IP:port` socket address (the standard library's reading, which
/// the caller makes); if not, it must be `host:port`.
pub fn parse_ingress_addr(s: &str, is_socket_addr: bool) -> (r: Result<IngressAddr, AddressError>)
    ensures
        is_socket_addr ==> (r matches Ok(IngressAddr::Socket(t)) && t@ == s@),
        !is_socket_addr ==> match r {
            Ok(IngressAddr::Dns { host, port }) => host_port_outcome(s@) == Ok::<
                (Seq<char>, u16),
                (u8, Seq<char>),
            >((host@, port)),
            Ok(IngressAddr::Socket(_)) => false,
            Err(e) => host_port_outcome(s@) is Err && (e is MissingPort <==> host_port_outcome(s@)->Err_0.0
                == 0u8) && (!(e is MissingPort) ==> host_port_view(Err(e)) == host_port_outcome(s@)),
        },
{
    if is_socket_addr {
        return Ok(IngressAddr::Socket(String::from_str(s)));
    }
    match parse_host_port(s) {
        Ok((host, port)) => Ok(IngressAddr::Dns { host, port }),
        Err(e) => Err(e),
    }
}

/// Why a bootstrap peer string was refused.
#[derive(Debug, Clone)]
pub enum BootstrapPeerError {
    /// No `@` separates the public key from the address.
    MissingSeparator(String),
    /// The public key is not hex.
    InvalidPublicKeyHex(String),
    /// The public key does not have 32 bytes.
    InvalidPublicKeyLength(usize),
    /// The 32 bytes are not an ed25519 public key.
    InvalidPublicKey,
}

/// The public key text of a bootstrap peer: before its first `@`, without
/// a leading `0x`.
pub open spec fn peer_key_text(peer: Seq<char>) -> Seq<char> {
    without_hex_prefix(peer.take(first_at(peer)->0))
}

/// The address text of a bootstrap peer: after its first `@`.
pub open spec fn peer_addr_text(peer: Seq<char>) -> Seq<char> {
    peer.skip(first_at(peer)->0 + 1)
}

/// Whether a bootstrap peer's key reads: there is an `@`, the key text is
/// hex of 32 bytes, and they are an ed25519 key.
pub open spec fn peer_key_reads(peer: Seq<char>) -> bool {
    &&& first_at(peer) is Some
    &&& hex_decodes(peer_key_text(peer))
    &&& hex_bytes(peer_key_text(peer)).len() == 32
    &&& ed25519_key_decodes(hex_bytes(peer_key_text(peer)))
}

/// Reads the public key of a `PUBLIC_KEY_HEX@HOST:PORT` bootstrap peer (the
/// hex may start with `0x`) and returns it with the address text; the
/// error says which step failed first.
pub fn parse_bootstrap_peer(peer: &str) -> (r: Result<([u8; 32], String), BootstrapPeerError>)
    ensures
        match r {
            Ok((pk, addr)) => {
                &&& peer_key_reads(peer@)
                &&& pk@ == hex_bytes(peer_key_text(peer@))
                &&& addr@ == peer_addr_text(peer@)
            },
            Err(BootstrapPeerError::MissingSeparator(t)) => first_at(peer@) is None && t@ == peer@,
            Err(BootstrapPeerError::InvalidPublicKeyHex(t)) => {
                &&& first_at(peer@) is Some
                &&& !hex_decodes(peer_key_text(peer@))
                &&& t@ == peer_key_text(peer@)
            },
            Err(BootstrapPeerError::InvalidPublicKeyLength(n)) => {
                &&& first_at(peer@) is Some
                &&& hex_decodes(peer_key_text(peer@))
                &&& n == hex_bytes(peer_key_text(peer@)).len()
                &&& n != 32
            },
            Err(BootstrapPeerError::InvalidPublicKey) => {
                &&& first_at(peer@) is Some
                &&& hex_decodes(peer_key_text(peer@))
                &&& hex_bytes(peer_key_text(peer@)).len() == 32
                &&& !ed25519_key_decodes(hex_bytes(peer_key_text(peer@)))
            },
        },
{
    let (pk_text, addr) = match split_at_sign(peer) {
        Some(parts) => parts,
        None => {
            return Err(BootstrapPeerError::MissingSeparator(String::from_str(peer)));
        },
    };
    let pk_hex = strip_hex_prefix(pk_text.as_str());
    let bytes = match hex_decode(pk_hex.as_str()) {
        Ok(b) => b,
        Err(_) => {
            return Err(BootstrapPeerError::InvalidPublicKeyHex(pk_hex));
        },
    };
    if bytes.len() != 32 {
        return Err(BootstrapPeerError::InvalidPublicKeyLength(bytes.len()));
    }
    let mut pk = [0u8; 32];
    let mut i: usize = 0;
    while i < 32
        invariant
            0 <= i <= 32,
            bytes@.len() == 32,
            forall|j: int| 0 <= j < i ==> pk@[j] == bytes@[j],
        decreases 32 - i,
    {
        pk[i] = bytes[i];
        i = i + 1;
    }
    assert(pk@ =~= bytes@);
    if !ed25519_key_is_valid(&pk) {
        return Err(BootstrapPeerError::InvalidPublicKey);
    }
    Ok((pk, addr))
}

/// Errors of the transport's configuration parsing.
#[derive(Debug, Clone)]
pub enum TransportError {
    /// A dialable address without a `:` before its port.
    InvalidDialableAddr(String),
    /// A port that is not a 16-bit number.
    InvalidPort(String),
    /// A hostname that is not valid.
    InvalidHostname(String),
    /// A bootstrap peer without `@`.
    InvalidBootstrapPeer(String),
    /// A bootstrap peer key that is not hex.
    InvalidPublicKeyHex(String),
    /// A bootstrap peer key of the wrong length.
    InvalidPublicKeyLength(usize),
    /// A bootstrap peer key that is no ed25519 public key.
    InvalidPublicKey,
}

/// What reading a bootstrap peer's key owes, as the transport reports it.
pub open spec fn peer_key_error(peer: Seq<char>, r: Result<([u8; 32], String), TransportError>) -> bool {
    match r {
        Ok((pk, addr)) => {
            &&& peer_key_reads(peer)
            &&& pk@ == hex_bytes(peer_key_text(peer))
            &&& addr@ == peer_addr_text(peer)
        },
        Err(e) => peer_fault(peer, e),
    }
}

/// The error a bootstrap peer whose key does not read is reported with.
pub open spec fn peer_fault(peer: Seq<char>, e: TransportError) -> bool {
    match e {
        TransportError::InvalidBootstrapPeer(t) => first_at(peer) is None && t@ == peer,
        TransportError::InvalidPublicKeyHex(t) => {
            &&& first_at(peer) is Some
            &&& !hex_decodes(peer_key_text(peer))
            &&& t@ == peer_key_text(peer)
        },
        TransportError::InvalidPublicKeyLength(n) => {
            &&& first_at(peer) is Some
            &&& hex_decodes(peer_key_text(peer))
            &&& n == hex_bytes(peer_key_text(peer)).len()
            &&& n != 32
        },
        TransportError::InvalidPublicKey => {
            &&& first_at(peer) is Some
            &&& hex_decodes(peer_key_text(peer))
            &&& hex_bytes(peer_key_text(peer)).len() == 32
            &&& !ed25519_key_decodes(hex_bytes(peer_key_text(peer)))
        },
        _ => false,
    }
}

/// The error a dialable address that does not read is reported with.
pub open spec fn ingress_fault(addr: Seq<char>, is_socket_addr: bool, e: TransportError) -> bool {
    &&& !is_socket_addr
    &&& match (host_port_outcome(addr), e) {
        (Err((0u8, _)), TransportError::InvalidDialableAddr(t)) => t@ == addr,
        (Err((1u8, t)), TransportError::InvalidPort(u)) => u@ == t,
        (Err((2u8, t)), TransportError::InvalidHostname(u)) => u@ == t,
        _ => false,
    }
}

/// The address a dialable address that reads stands for.
pub open spec fn ingress_of(addr: Seq<char>, is_socket_addr: bool, i: IngressAddr) -> bool {
    if is_socket_addr {
        i matches IngressAddr::Socket(t) && t@ == addr
    } else {
        i matches IngressAddr::Dns { host, port } && host_port_outcome(addr) == Ok::<
            (Seq<char>, u16),
            (u8, Seq<char>),
        >((host@, port))
    }
}

/// A bootstrap peer reads: its key, then its address.
pub open spec fn peer_reads(peer: Seq<char>, is_socket_addr: bool) -> bool {
    peer_key_reads(peer) && (is_socket_addr || host_port_outcome(peer_addr_text(peer)) is Ok)
}

/// The error a bootstrap peer that does not read is reported with: its
/// key's, else its address's.
pub open spec fn peer_error(peer: Seq<char>, is_socket_addr: bool, e: TransportError) -> bool {
    if peer_key_reads(peer) {
        ingress_fault(peer_addr_text(peer), is_socket_addr, e)
    } else {
        peer_fault(peer, e)
    }
}

/// `e` is what bootstrap peer `peer` reads as: its key and its address.
pub open spec fn bootstrap_entry(peer: Seq<char>, is_socket_addr: bool, e: ([u8; 32], IngressAddr)) -> bool {
    &&& peer_reads(peer, is_socket_addr)
    &&& e.0@ == hex_bytes(peer_key_text(peer))
    &&& ingress_of(peer_addr_text(peer), is_socket_addr, e.1)
}

/// Parsing helpers for transport configuration.
#[derive(Debug)]
pub struct TransportParsing;

impl TransportParsing {
    /// Parses a dialable address: `IP:port` (as the standard library reads
    /// it, `is_socket_addr`) or `hostname:port`.
    pub fn parse_ingress(addr_str: &str, is_socket_addr: bool) -> (r: Result<IngressAddr, TransportError>)
        ensures
            match r {
                Ok(i) => ingress_of(addr_str@, is_socket_addr, i),
                Err(e) => ingress_fault(addr_str@, is_socket_addr, e),
            },
    {
        match parse_ingress_addr(addr_str, is_socket_addr) {
            Ok(a) => Ok(a),
            Err(AddressError::MissingPort) => Err(TransportError::InvalidDialableAddr(String::from_str(addr_str))),
            Err(AddressError::InvalidPort(p)) => Err(TransportError::InvalidPort(p)),
            Err(AddressError::InvalidHostname(h)) => Err(TransportError::InvalidHostname(h)),
        }
    }

    /// Reads the public key of a `PUBLIC_KEY_HEX@HOST:PORT` bootstrap peer and
    /// returns it with the address text, which the caller reads with
    /// [`Self::parse_ingress`].
    pub fn parse_bootstrap_peer(peer: &str) -> (r: Result<([u8; 32], String), TransportError>)
        ensures
            peer_key_error(peer@, r),
    {
        match parse_bootstrap_peer(peer) {
            Ok(v) => Ok(v),
            Err(BootstrapPeerError::MissingSeparator(t)) => Err(TransportError::InvalidBootstrapPeer(t)),
            Err(BootstrapPeerError::InvalidPublicKeyHex(t)) => Err(TransportError::InvalidPublicKeyHex(t)),
            Err(BootstrapPeerError::InvalidPublicKeyLength(n)) => Err(TransportError::InvalidPublicKeyLength(n)),
            Err(BootstrapPeerError::InvalidPublicKey) => Err(TransportError::InvalidPublicKey),
        }
    }

    /// Reads bootstrap peers `PUBLIC_KEY_HEX@HOST:PORT`: each one's key, then
    /// its address (`socket_addrs[i]` says whether peer `i`'s address parses
    /// as an `IP:port` socket address, the standard library's reading, which
    /// the caller makes). The first peer that does not read gives the error.
    pub fn parse_bootstrappers(peers: &Vec<String>, socket_addrs: &Vec<bool>) -> (r: Result<
        Vec<([u8; 32], IngressAddr)>,
        TransportError,
    >)
        requires
            peers.len() == socket_addrs.len(),
        ensures
            match r {
                Ok(v) => {
                    &&& v.len() == peers.len()
                    &&& forall|i: int|
                        0 <= i < peers.len() ==> #[trigger] bootstrap_entry(peers[i]@, socket_addrs[i], v[i])
                },
                Err(e) => exists|i: int|
                    0 <= i < peers.len() && (forall|j: int|
                        0 <= j < i ==> peer_reads(#[trigger] peers[j]@, socket_addrs[j])) && !peer_reads(
                        peers[i]@,
                        socket_addrs[i],
                    ) && #[trigger] peer_error(peers[i]@, socket_addrs[i], e),
            },
    {
        let mut v: Vec<([u8; 32], IngressAddr)> = Vec::new();
        let mut i: usize = 0;
        while i < peers.len()
            invariant
                0 <= i <= peers.len(),
                peers.len() == socket_addrs.len(),
                v.len() == i,
                forall|j: int| 0 <= j < i ==> #[trigger] bootstrap_entry(peers[j]@, socket_addrs[j], v[j]),
            decreases peers.len() - i,
        {
            let (pk, addr) = match Self::parse_bootstrap_peer(peers[i].as_str()) {
                Ok(parts) => parts,
                Err(e) => {
                    assert(forall|j: int| 0 <= j < i ==> peer_reads(#[trigger] peers[j]@, socket_addrs[j])) by {
                        assert forall|j: int| 0 <= j < i implies peer_reads(#[trigger] peers[j]@, socket_addrs[j]) by {
                            assert(bootstrap_entry(peers[j]@, socket_addrs[j], v[j]));
                        }
                    }
                    assert(peer_error(peers[i as int]@, socket_addrs[i as int], e));
                    return Err(e);
                },
            };
            let ingress = match Self::parse_ingress(addr.as_str(), socket_addrs[i]) {
                Ok(a) => a,
                Err(e) => {
                    assert(forall|j: int| 0 <= j < i ==> peer_reads(#[trigger] peers[j]@, socket_addrs[j])) by {
                        assert forall|j: int| 0 <= j < i implies peer_reads(#[trigger] peers[j]@, socket_addrs[j]) by {
                            assert(bootstrap_entry(peers[j]@, socket_addrs[j], v[j]));
                        }
                    }
                    assert(peer_error(peers[i as int]@, socket_addrs[i as int], e));
                    return Err(e);
                },
            };
            let ghost v0 = v@;
            let ghost entry = (pk, ingress);
            v.push((pk, ingress));
            proof {
                assert(bootstrap_entry(peers[i as int]@, socket_addrs[i as int], entry));
                assert forall|j: int| 0 <= j <= i implies #[trigger] bootstrap_entry(
                    peers[j]@,
                    socket_addrs[j],
                    v[j],
                ) by {
                    if j < i {
                        assert(v[j] == v0[j]);
                    } else {
                        assert(v[j] == entry);
                    }
                }
            }
            i = i + 1;
        }
        Ok(v)
    }
}

} // verus!