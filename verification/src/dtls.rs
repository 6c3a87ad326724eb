//! Decisions of the Hue Entertainment DTLS channel: the pre-shared key, the PSK
//! identity, the bridge address policy, and the transport interface.
use vstd::prelude::*;
use vstd::utf8::{encode_utf8, is_continuation_byte};
use vstd::string::StringSliceAdditionalSpecFns;
use crate::entertainment::HueStreamMessage;
use crate::error::HueError;
use crate::text::{chars_of, eq_str, push_chars, push_str_chars, string_of, trim, trim_str};
use crate::color::HueColor;

verus! {

broadcast use vstd::string::group_string_axioms;

/// Value of one ASCII hexadecimal digit given as a byte.
pub open spec fn hex_byte_digit(b: u8) -> Option<u8> {
    if 48 <= b && b <= 57 {
        Some((b - 48) as u8)
    } else if 97 <= b && b <= 102 {
        Some((b - 87) as u8)
    } else if 65 <= b && b <= 70 {
        Some((b - 55) as u8)
    } else {
        None
    }
}

/// `u8::from_str_radix(_, 16)` on a two-byte string: two digits, or `+` and one digit.
pub open spec fn hex_byte_pair(b0: u8, b1: u8) -> Option<u8> {
    if b0 == 43 {
        hex_byte_digit(b1)
    } else {
        match (hex_byte_digit(b0), hex_byte_digit(b1)) {
            (Some(a), Some(b)) => Some((a * 16 + b) as u8),
            _ => None,
        }
    }
}

/// `str::is_char_boundary` on UTF-8 bytes, for `0 <= i <= b.len()`.
pub open spec fn char_boundary(b: Seq<u8>, i: int) -> bool {
    i == b.len() || (0 <= i < b.len() && !is_continuation_byte(b[i]))
}

/// Decoding of the byte pairs from index `i` on: the bytes, or `None` at the first pair
/// that is not a base-16 number.
pub open spec fn hex_decode_from(b: Seq<u8>, i: int) -> Option<Seq<u8>>
    decreases b.len() - i,
{
    if i < 0 || i + 2 > b.len() {
        Some(Seq::empty())
    } else {
        match hex_byte_pair(b[i], b[i + 1]) {
            None => None,
            Some(v) => match hex_decode_from(b, i + 2) {
                Some(rest) => Some(seq![v] + rest),
                None => None,
            },
        }
    }
}

/// Slicing the pair at `i`, or at a later pair reached before a decoding error, would cut a
/// character in two (the slicing of `decode_hex` panics there).
pub open spec fn hex_decode_splits_char(b: Seq<u8>, i: int) -> bool
    decreases b.len() - i,
{
    if i < 0 || i + 2 > b.len() {
        false
    } else if !char_boundary(b, i) || !char_boundary(b, i + 2) {
        true
    } else if hex_byte_pair(b[i], b[i + 1]) is None {
        false
    } else {
        hex_decode_splits_char(b, i + 2)
    }
}

/// The inputs on which decoding a hex secret cuts a character in two (the original decoding
/// panics there): an even number of bytes, with a pair slice reached that is not on character
/// boundaries.
pub open spec fn hex_decoding_panics(text: Seq<char>) -> bool {
    hex_text_bytes(text).len() % 2 == 0 && hex_decode_splits_char(hex_text_bytes(text), 0)
}

/// The UTF-8 bytes that `decode_hex` reads: those of the trimmed text.
pub open spec fn hex_text_bytes(text: Seq<char>) -> Seq<u8> {
    encode_utf8(trim(text))
}

/// Message of an odd-length secret.
pub open spec fn odd_hex_message() -> Seq<char> {
    "hex string must have an even length"@
}

/// Message of `ParseIntError` for a bad digit.
pub open spec fn invalid_digit_message() -> Seq<char> {
    "invalid digit found in string"@
}

/// Decodes the client key (a hexadecimal secret, surrounding white space ignored).
pub fn decode_hex(value: &str) -> (r: Result<Vec<u8>, HueError>)
    requires
        !hex_decoding_panics(value@),
    ensures
        ({
            let b = hex_text_bytes(value@);
            if b.len() % 2 != 0 {
                r matches Err(HueError::InvalidHexSecret(m)) && m@ == odd_hex_message()
            } else {
                match hex_decode_from(b, 0) {
                    Some(d) => r matches Ok(v) && v@ == d,
                    None => r matches Err(HueError::InvalidHexSecret(m)) && m@
                        == invalid_digit_message(),
                }
            }
        }),
{
    let t = trim_str(value);
    let s = string_of(&t);
    let b = s.as_str().as_bytes();
    assert(b@ == hex_text_bytes(value@));
    if b.len() % 2 != 0 {
        return Err(HueError::InvalidHexSecret("hex string must have an even length".to_owned()));
    }
    let mut out: Vec<u8> = Vec::new();
    let mut i: usize = 0;
    while i < b.len()
        invariant
            i % 2 == 0,
            b.len() % 2 == 0,
            i <= b.len(),
            b@ == hex_text_bytes(value@),
            hex_decode_from(b@, 0) == match hex_decode_from(b@, i as int) {
                Some(rest) => Some(out@ + rest),
                None => None,
            },
        decreases b.len() - i,
    {
        match hex_pair_byte_exec(b[i], b[i + 1]) {
            None => {
                return Err(HueError::InvalidHexSecret("invalid digit found in string".to_owned()));
            },
            Some(v) => {
                proof {
                    let ghost rest = hex_decode_from(b@, i + 2);
                    if let Some(r2) = rest {
                        assert(out@ + (seq![v] + r2) =~= out@.push(v) + r2);
                    }
                }
                out.push(v);
            },
        }
        i = i + 2;
    }
    assert(out@ + Seq::<u8>::empty() =~= out@);
    Ok(out)
}

/// Whether decoding `value` as a hex secret would cut a character in two; callers test it
/// before `decode_hex`.
pub fn hex_decoding_would_panic(value: &str) -> (r: bool)
    ensures
        r == hex_decoding_panics(value@),
{
    let t = trim_str(value);
    let s = string_of(&t);
    let b = s.as_str().as_bytes();
    assert(b@ == hex_text_bytes(value@));
    if b.len() % 2 != 0 {
        return false;
    }
    let mut i: usize = 0;
    while i < b.len()
        invariant
            i % 2 == 0,
            b.len() % 2 == 0,
            i <= b.len(),
            b@ == hex_text_bytes(value@),
            hex_decode_splits_char(b@, 0) == hex_decode_splits_char(b@, i as int),
        decreases b.len() - i,
    {
        let start_ok = !(0x80 <= b[i] && b[i] <= 0xbf);
        let end_ok = i + 2 == b.len() || !(0x80 <= b[i + 2] && b[i + 2] <= 0xbf);
        if !start_ok || !end_ok {
            return true;
        }
        if hex_pair_byte_exec(b[i], b[i + 1]).is_none() {
            return false;
        }
        i = i + 2;
    }
    false
}

fn hex_byte_digit_exec(b: u8) -> (r: Option<u8>)
    ensures
        r == hex_byte_digit(b),
{
    if 48 <= b && b <= 57 {
        Some(b - 48)
    } else if 97 <= b && b <= 102 {
        Some(b - 87)
    } else if 65 <= b && b <= 70 {
        Some(b - 55)
    } else {
        None
    }
}

fn hex_pair_byte_exec(b0: u8, b1: u8) -> (r: Option<u8>)
    ensures
        r == hex_byte_pair(b0, b1),
{
    if b0 == 43 {
        hex_byte_digit_exec(b1)
    } else {
        match (hex_byte_digit_exec(b0), hex_byte_digit_exec(b1)) {
            (Some(a), Some(c)) => Some(a * 16 + c),
            _ => None,
        }
    }
}

/// An environment flag value that turns an option on: `1`, `true`, `TRUE`, `yes` or `YES`.
pub open spec fn flag_on(value: Option<Seq<char>>) -> bool {
    match value {
        Some(v) => v == "1"@ || v == "true"@ || v == "TRUE"@ || v == "yes"@ || v == "YES"@,
        None => false,
    }
}

/// Whether an environment flag value turns its option on (the value is compared as is).
pub fn identity_env_flag(value: Option<&str>) -> (r: bool)
    ensures
        r == flag_on(match value {
            Some(v) => Some(v@),
            None => None,
        }),
{
    match value {
        None => false,
        Some(v) => {
            let c = chars_of(v);
            eq_str(&c, "1") || eq_str(&c, "true") || eq_str(&c, "TRUE") || eq_str(&c, "yes")
                || eq_str(&c, "YES")
        },
    }
}

/// A value of `LUMAWAY_DTLS_ALLOW_REMOTE` that allows a bridge outside the local network:
/// a flag value (see `flag_on`) or `on`.
pub open spec fn allow_remote_on(value: Option<Seq<char>>) -> bool {
    flag_on(value) || value == Some("on"@)
}

/// Whether `LUMAWAY_DTLS_ALLOW_REMOTE`, whose value is given, allows a bridge outside the LAN.
pub fn dtls_allows_non_lan_bridge_ip(allow_remote: Option<&str>) -> (r: bool)
    ensures
        r == allow_remote_on(match allow_remote {
            Some(v) => Some(v@),
            None => None,
        }),
{
    if identity_env_flag(allow_remote) {
        return true;
    }
    match allow_remote {
        Some(v) => {
            let c = chars_of(v);
            eq_str(&c, "on")
        },
        None => false,
    }
}

/// A parsed bridge address, by its octets.
#[derive(Debug, Clone, Copy)]
pub enum BridgeAddress {
    V4([u8; 4]),
    V6([u8; 16]),
}

/// `Ipv4Addr::is_private`: 10.0.0.0/8, 172.16.0.0/12 or 192.168.0.0/16.
pub open spec fn is_private_v4(o: [u8; 4]) -> bool {
    o@[0] == 10 || (o@[0] == 172 && 16 <= o@[1] && o@[1] <= 31) || (o@[0] == 192 && o@[1] == 168)
}

/// `Ipv6Addr::is_loopback`: `::1`.
pub open spec fn is_loopback_v6(o: [u8; 16]) -> bool {
    (forall|i: int| 0 <= i < 15 ==> o@[i] == 0) && o@[15] == 1
}

/// Unique local (`fc00::/7`) or unicast link-local (`fe80::/10`), and not the loopback.
pub open spec fn is_lan_v6(o: [u8; 16]) -> bool {
    !is_loopback_v6(o) && ((o@[0] & 0xfe) == 0xfc || (o@[0] == 0xfe && (o@[1] & 0xc0) == 0x80))
}

/// A bridge address on the local network (private IPv4 that is not loopback, or LAN IPv6).
pub open spec fn is_lan_target(a: BridgeAddress) -> bool {
    match a {
        BridgeAddress::V4(o) => is_private_v4(o) && o@[0] != 127,
        BridgeAddress::V6(o) => is_lan_v6(o),
    }
}

/// Whether an address is on the local network, as the DTLS policy requires.
pub fn is_lan_dtls_target(a: BridgeAddress) -> (r: bool)
    ensures
        r == is_lan_target(a),
{
    match a {
        BridgeAddress::V4(o) => {
            (o[0] == 10 || (o[0] == 172 && 16 <= o[1] && o[1] <= 31) || (o[0] == 192 && o[1]
                == 168)) && o[0] != 127
        },
        BridgeAddress::V6(o) => {
            let mut zero_prefix = true;
            let mut i: usize = 0;
            while i < 15
                invariant
                    i <= 15,
                    zero_prefix == (forall|k: int| 0 <= k < i ==> o@[k] == 0),
                decreases 15 - i,
            {
                if o[i] != 0 {
                    zero_prefix = false;
                }
                i = i + 1;
            }
            let loopback = zero_prefix && o[15] == 1;
            !loopback && ((o[0] & 0xfe) == 0xfc || (o[0] == 0xfe && (o[1] & 0xc0) == 0x80))
        },
    }
}

/// Message when no bridge address is given.
pub open spec fn missing_ip_message() -> Seq<char> {
    "bridge IP is required for DTLS"@
}

/// Message for an address that does not parse.
pub open spec fn invalid_ip_message(ip: Seq<char>) -> Seq<char> {
    "invalid bridge IP for DTLS: "@ + ip
}

/// Message for an address outside the local network.
pub open spec fn non_lan_message(ip: Seq<char>) -> Seq<char> {
    "bridge IP "@ + ip
        + " is not a private/link-local address; set LUMAWAY_DTLS_ALLOW_REMOTE=1 to override (see docs/security.md)"@
}

/// The DTLS target policy: `bridge_ip` (trimmed) must be present, must parse (`parsed`
/// is its parse), and must be on the local network unless `allow_remote`.
pub fn validate_dtls_bridge_ip(bridge_ip: &str, parsed: Option<BridgeAddress>, allow_remote: bool) -> (r: Result<(), HueError>)
    ensures
        ({
            let t = trim(bridge_ip@);
            if t.len() == 0 {
                r matches Err(HueError::Dtls(m)) && m@ == missing_ip_message()
            } else {
                match parsed {
                    None => r matches Err(HueError::Dtls(m)) && m@ == invalid_ip_message(t),
                    Some(a) => if allow_remote || is_lan_target(a) {
                        r is Ok
                    } else {
                        r matches Err(HueError::Dtls(m)) && m@ == non_lan_message(t)
                    },
                }
            }
        }),
{
    let t = trim_str(bridge_ip);
    if t.len() == 0 {
        return Err(HueError::Dtls("bridge IP is required for DTLS".to_owned()));
    }
    match parsed {
        None => {
            let mut m = "invalid bridge IP for DTLS: ".to_owned();
            push_chars(&mut m, &t);
            Err(HueError::Dtls(m))
        },
        Some(a) => {
            if allow_remote || is_lan_dtls_target(a) {
                Ok(())
            } else {
                let mut m = "bridge IP ".to_owned();
                push_chars(&mut m, &t);
                push_str_chars(
                    &mut m,
                    " is not a private/link-local address; set LUMAWAY_DTLS_ALLOW_REMOTE=1 to override (see docs/security.md)",
                );
                Err(HueError::Dtls(m))
            }
        },
    }
}

/// The PSK identity chosen from the environment before asking the bridge: an explicit
/// `LUMAWAY_DTLS_IDENTITY` (trimmed, non-empty), or the app key when
/// `LUMAWAY_DTLS_USE_APP_KEY` is on; `None` means the bridge's application id is asked for.
pub fn psk_identity_from_env(identity: Option<&str>, use_app_key: Option<&str>, app_key: &str) -> (r: Option<String>)
    ensures
        ({
            let explicit = match identity {
                Some(v) => trim(v@),
                None => Seq::empty(),
            };
            if explicit.len() > 0 {
                r matches Some(s) && s@ == explicit
            } else if flag_on(match use_app_key {
                Some(v) => Some(v@),
                None => None,
            }) {
                r matches Some(s) && s@ == app_key@
            } else {
                r is None
            }
        }),
{
    if let Some(v) = identity {
        let t = trim_str(v);
        if t.len() > 0 {
            return Some(string_of(&t));
        }
    }
    if identity_env_flag(use_app_key) {
        return Some(app_key.to_owned());
    }
    None
}

/// The PSK identity once the bridge was asked for its application id: that id, or the
/// app key when the lookup failed.
pub fn psk_identity_after_lookup(app_key: &str, application_id: Result<String, HueError>) -> (r: String)
    ensures
        match application_id {
            Ok(id) => r@ == id@,
            Err(_) => r@ == app_key@,
        },
{
    match application_id {
        Ok(id) => id,
        Err(_) => app_key.to_owned(),
    }
}

/// Writes the NUL-terminated PSK identity into `identity_out`; fails when it does not fit.
pub fn write_psk_identity(psk_identity: &str, identity_out: &mut [u8]) -> (r: Result<(), ()>)
    ensures
        ({
            let id = psk_identity.spec_bytes();
            if id.len() + 1 > old(identity_out)@.len() {
                r is Err && final(identity_out)@ == old(identity_out)@
            } else {
                &&& r is Ok
                &&& final(identity_out)@.len() == old(identity_out)@.len()
                &&& final(identity_out)@.take(id.len() as int) == id
                &&& final(identity_out)@[id.len() as int] == 0
                &&& final(identity_out)@.skip(id.len() as int + 1) == old(identity_out)@.skip(id.len() as int + 1)
            }
        }),
{
    let identity = psk_identity.as_bytes();
    if identity.len() >= identity_out.len() {
        return Err(());
    }
    let n = identity.len();
    let ghost before = identity_out@;
    for i in 0..n
        invariant
            n == identity@.len(),
            n < identity_out@.len(),
            identity_out@.len() == before.len(),
            forall|k: int| 0 <= k < i ==> identity_out@[k] == identity@[k],
            forall|k: int| i <= k < before.len() ==> identity_out@[k] == before[k],
    {
        identity_out[i] = identity[i];
    }
    identity_out[n] = 0;
    assert(identity_out@.take(n as int) =~= identity@);
    assert(identity_out@.skip(n + 1) =~= before.skip(n + 1));
    Ok(())
}

/// A channel that carries encoded stream messages to the bridge. A transport that keeps the
/// log (`obeys_log`) is held to a contract over what was handed to it for sending and what
/// each send and each drain returned; the defaults keep no log and promise nothing, as for a
/// transport that talks to the network outside verified code.
pub trait DtlsTransport: Sized {
    /// Whether this transport keeps the log below.
    open spec fn obeys_log() -> bool {
        false
    }

    /// The byte strings handed over for sending, in order.
    open spec fn sent(&self) -> Seq<Seq<u8>> {
        Seq::empty()
    }

    /// What each send returned, in order.
    open spec fn send_results(&self) -> Seq<Result<(), HueError>> {
        Seq::empty()
    }

    /// What each drain of the peer returned, in order.
    open spec fn drain_results(&self) -> Seq<Result<(), HueError>> {
        Seq::empty()
    }

    /// Sends one encoded message.
    fn send(&mut self, message: &HueStreamMessage) -> (r: Result<(), HueError>)
        ensures
            Self::obeys_log() ==> final(self).sent() == old(self).sent().push(message@),
            Self::obeys_log() ==> final(self).send_results() == old(self).send_results().push(r),
            Self::obeys_log() ==> final(self).drain_results() == old(self).drain_results(),
    ;

    /// Sends raw message bytes.
    fn send_bytes(&mut self, bytes: &[u8]) -> (r: Result<(), HueError>)
        ensures
            Self::obeys_log() ==> final(self).sent() == old(self).sent().push(bytes@),
            Self::obeys_log() ==> final(self).send_results() == old(self).send_results().push(r),
            Self::obeys_log() ==> final(self).drain_results() == old(self).drain_results(),
    ;

    /// Reads and discards what the peer sent, so that writes keep going through.
    fn drain_incoming(&mut self) -> (r: Result<(), HueError>)
        ensures
            Self::obeys_log() ==> final(self).sent() == old(self).sent(),
            Self::obeys_log() ==> final(self).send_results() == old(self).send_results(),
            Self::obeys_log() ==> final(self).drain_results() == old(self).drain_results().push(r),
    ;
}

/// What sending a frame reports, as `frame_outcome` computes it.
pub open spec fn frame_result(sent: Result<(), HueError>, drained: Option<Result<(), HueError>>) -> Result<(), HueError> {
    match (sent, drained) {
        (Err(e), _) => Err(e),
        (Ok(()), Some(d)) => d,
        (Ok(()), None) => Ok(()),
    }
}

/// What sending a frame reports, given how the send went and, when it succeeded, how the
/// drain that followed went (none when no drain ran): the send's failure first, else the
/// drain's outcome.
pub fn frame_outcome(sent: Result<(), HueError>, drained: Option<Result<(), HueError>>) -> (r: Result<(), HueError>)
    ensures
        r == frame_result(sent, drained),
{
    match sent {
        Err(e) => Err(e),
        Ok(()) => match drained {
            Some(d) => d,
            None => Ok(()),
        },
    }
}

/// Sends one frame, then, when that succeeded, drains what the peer sent once; what is
/// reported is `frame_outcome` of the two results, which come from the transport.
pub fn send_dtls_frame<T: DtlsTransport>(transport: &mut T, message: &[u8]) -> (r: Result<(), HueError>)
    ensures
        exists|s: Result<(), HueError>, d: Option<Result<(), HueError>>|
            #![trigger frame_result(s, d)]
            (s is Ok <==> d is Some) && r == frame_result(s, d),
        T::obeys_log() ==> ({
            let s = final(transport).send_results().last();
            let d = final(transport).drain_results().last();
            &&& final(transport).sent() == old(transport).sent().push(message@)
            &&& final(transport).send_results() == old(transport).send_results().push(s)
            &&& s is Ok ==> final(transport).drain_results() == old(transport).drain_results().push(d)
                && r == frame_result(s, Some(d))
            &&& s is Err ==> final(transport).drain_results() == old(transport).drain_results()
                && r == s
        }),
{
    let sent = transport.send_bytes(message);
    let drained = if sent.is_ok() {
        Some(transport.drain_incoming())
    } else {
        None
    };
    let r = frame_outcome(sent, drained);
    assert(frame_result(sent, drained) == r);
    r
}

/// `count + n` wrapping around at `usize::MAX`, as an unchecked `usize` sum does.
pub open spec fn wrapping_count(count: usize, n: nat) -> int {
    if count + n > usize::MAX {
        count + n - usize::MAX - 1
    } else {
        count + n
    }
}

/// A transport that sends nothing and counts the bytes it was given.
pub struct NullTransport {
    pub sent_bytes: usize,
    /// What was handed over for sending.
    pub handed: Ghost<Seq<Seq<u8>>>,
    /// What each send returned.
    pub send_log: Ghost<Seq<Result<(), HueError>>>,
    /// What each drain returned.
    pub drain_log: Ghost<Seq<Result<(), HueError>>>,
}

impl Default for NullTransport {
    /// Nothing given yet.
    fn default() -> (r: NullTransport)
        ensures
            r.sent_bytes == 0,
            r.sent() == Seq::<Seq<u8>>::empty(),
            r.send_results() == Seq::<Result<(), HueError>>::empty(),
            r.drain_results() == Seq::<Result<(), HueError>>::empty(),
    {
        NullTransport {
            sent_bytes: 0,
            handed: Ghost(Seq::empty()),
            send_log: Ghost(Seq::empty()),
            drain_log: Ghost(Seq::empty()),
        }
    }
}

impl DtlsTransport for NullTransport {
    open spec fn obeys_log() -> bool {
        true
    }

    open spec fn sent(&self) -> Seq<Seq<u8>> {
        self.handed@
    }

    open spec fn send_results(&self) -> Seq<Result<(), HueError>> {
        self.send_log@
    }

    open spec fn drain_results(&self) -> Seq<Result<(), HueError>> {
        self.drain_log@
    }

    fn send(&mut self, message: &HueStreamMessage) -> (r: Result<(), HueError>)
        ensures
            r is Ok,
            final(self).sent_bytes == wrapping_count(old(self).sent_bytes, message@.len()),
    {
        self.send_bytes(message.as_bytes())
    }

    fn send_bytes(&mut self, bytes: &[u8]) -> (r: Result<(), HueError>)
        ensures
            r is Ok,
            final(self).sent_bytes == wrapping_count(old(self).sent_bytes, bytes@.len()),
    {
        self.sent_bytes = self.sent_bytes.wrapping_add(bytes.len());
        proof {
            self.handed@ = self.handed@.push(bytes@);
            self.send_log@ = self.send_log@.push(Ok(()));
        }
        Ok(())
    }

    fn drain_incoming(&mut self) -> (r: Result<(), HueError>)
        ensures
            r is Ok,
            final(self).sent_bytes == old(self).sent_bytes,
    {
        proof {
            self.drain_log@ = self.drain_log@.push(Ok(()));
        }
        Ok(())
    }
}

/// All channels off.
pub fn black() -> (c: HueColor)
    ensures
        c == (HueColor { red: 0, green: 0, blue: 0 }),
{
    HueColor { red: 0, green: 0, blue: 0 }
}

} // verus!
