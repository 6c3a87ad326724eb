//! TLS certificate pinning for HTTPS to the bridge: where pin files live, how a
//! certificate is reduced to its 32-byte pin, and what a handshake does with it.
//!
//! The default pin is the SHA-256 of the leaf certificate's SubjectPublicKeyInfo (SPKI);
//! the legacy pin is the SHA-256 of the whole leaf certificate (DER).
use vstd::prelude::*;
use crate::error::HueError;
use crate::sync_mode::opt_view;
use crate::text::{
    chars_of, ends_with, ends_with_str, eq_str, lower, lower_chars, push_chars, push_str_chars,
    replace_char, replace_char_exec, split_char, split_char_exec, string_of, trim, trim_str,
    u64_decimal, nat_decimal, views,
};

verus! {

broadcast use vstd::string::group_string_axioms;

/// What is hashed into the 32-byte pin.
#[derive(Debug, Clone, Copy, PartialEq, Eq, Structural)]
pub enum BridgeTlsPinKind {
    /// SHA-256 of the SubjectPublicKeyInfo (default; survives a re-issued leaf with the same key).
    Spki,
    /// SHA-256 of the leaf certificate DER (legacy).
    LeafCertDer,
}

/// A value that switches an option on: after trimming, `1`, `true`, `yes` or `on` in any
/// ASCII case.
pub open spec fn truthy(value: Option<Seq<char>>) -> bool {
    match value {
        Some(v) => {
            let l = lower(trim(v));
            l == "1"@ || l == "true"@ || l == "yes"@ || l == "on"@
        },
        None => false,
    }
}

/// Whether an environment value switches its option on.
pub fn truthy_env(value: Option<&str>) -> (r: bool)
    ensures
        r == truthy(opt_view(value)),
{
    match value {
        None => false,
        Some(v) => {
            let t = trim_str(v);
            let l = lower_chars(&t);
            eq_str(&l, "1") || eq_str(&l, "true") || eq_str(&l, "yes") || eq_str(&l, "on")
        },
    }
}

/// Whether `LUMAWAY_HUE_PIN_CERTS`, whose value is given, turns pinning on.
pub fn bridge_tls_pinning_enabled(pin_certs: Option<&str>) -> (r: bool)
    ensures
        r == truthy(opt_view(pin_certs)),
{
    truthy_env(pin_certs)
}

/// The pin kind that `LUMAWAY_HUE_PIN_MODE` selects: `cert`, `der` or `leaf` (trimmed, any
/// ASCII case) select the legacy kind; anything else, or no value, the SPKI kind.
pub open spec fn pin_kind_of_mode(mode: Option<Seq<char>>) -> BridgeTlsPinKind {
    match mode {
        Some(m) => {
            let l = lower(trim(m));
            if l == "cert"@ || l == "der"@ || l == "leaf"@ {
                BridgeTlsPinKind::LeafCertDer
            } else {
                BridgeTlsPinKind::Spki
            }
        },
        None => BridgeTlsPinKind::Spki,
    }
}

/// The active pin kind, from the value of `LUMAWAY_HUE_PIN_MODE`.
pub fn bridge_tls_pin_kind(mode: Option<&str>) -> (r: BridgeTlsPinKind)
    ensures
        r == pin_kind_of_mode(opt_view(mode)),
{
    match mode {
        None => BridgeTlsPinKind::Spki,
        Some(m) => {
            let t = trim_str(m);
            let l = lower_chars(&t);
            if eq_str(&l, "cert") || eq_str(&l, "der") || eq_str(&l, "leaf") {
                BridgeTlsPinKind::LeafCertDer
            } else {
                BridgeTlsPinKind::Spki
            }
        },
    }
}

/// A trimmed value, or nothing when it is blank.
pub open spec fn non_empty(value: Option<Seq<char>>) -> Option<Seq<char>> {
    match value {
        Some(v) => if trim(v).len() > 0 {
            Some(trim(v))
        } else {
            None
        },
        None => None,
    }
}

/// The bridge identifier from the value of `LUMAWAY_BRIDGE_ID`: trimmed, none when blank.
pub fn bridge_id_from_env(value: Option<&str>) -> (r: Option<String>)
    ensures
        match r {
            Some(s) => non_empty(opt_view(value)) == Some(s@),
            None => non_empty(opt_view(value)) is None,
        },
{
    match value {
        None => None,
        Some(v) => {
            let t = trim_str(v);
            if t.len() == 0 {
                None
            } else {
                Some(string_of(&t))
            }
        },
    }
}

/// `PathBuf::join` of a relative path: a separator is added unless `base` is empty or
/// already ends with one.
pub open spec fn join_path(base: Seq<char>, rel: Seq<char>) -> Seq<char> {
    if base.len() == 0 {
        rel
    } else if base.last() == '/' {
        base + rel
    } else {
        base + seq!['/'] + rel
    }
}

/// `join_path` on strings.
pub fn join_path_exec(base: &str, rel: &str) -> (r: String)
    ensures
        r@ == join_path(base@, rel@),
{
    let b = chars_of(base);
    let mut out = String::new();
    push_chars(&mut out, &b);
    if b.len() > 0 && b[b.len() - 1] != '/' {
        crate::text::push_char(&mut out, '/');
    }
    push_str_chars(&mut out, rel);
    out
}

/// The directory that holds `hue-tls-pins`: `LUMAWAY_HUE_PIN_DIR` when it is not blank
/// (trimmed), else `$XDG_CONFIG_HOME/lumaway` when that is set and not empty, else
/// `$HOME/.config/lumaway` (an unset home counting as empty).
pub open spec fn config_root(pin_dir: Option<Seq<char>>, xdg_config_home: Option<Seq<char>>, home: Option<Seq<char>>) -> Seq<char> {
    match non_empty(pin_dir) {
        Some(d) => d,
        None => if xdg_config_home is Some && xdg_config_home->Some_0.len() > 0 {
            join_path(xdg_config_home->Some_0, "lumaway"@)
        } else {
            join_path(
                match home {
                    Some(h) => h,
                    None => Seq::empty(),
                },
                ".config/lumaway"@,
            )
        },
    }
}

/// The directory that holds `hue-tls-pins`, from the values of `LUMAWAY_HUE_PIN_DIR`,
/// `XDG_CONFIG_HOME` and `HOME`.
pub fn lumaway_config_root(pin_dir: Option<&str>, xdg_config_home: Option<&str>, home: Option<&str>) -> (r: String)
    ensures
        r@ == config_root(opt_view(pin_dir), opt_view(xdg_config_home), opt_view(home)),
{
    if let Some(d) = pin_dir {
        let t = trim_str(d);
        if t.len() > 0 {
            return string_of(&t);
        }
    }
    if let Some(x) = xdg_config_home {
        let xc = chars_of(x);
        if xc.len() > 0 {
            return join_path_exec(x, "lumaway");
        }
    }
    match home {
        Some(h) => join_path_exec(h, ".config/lumaway"),
        None => {
            let r = join_path_exec("", ".config/lumaway");
            proof {
                reveal_strlit("");
            }
            r
        },
    }
}

/// A bridge address made safe as a file name: trimmed, `:` becomes `-`, `/` and `\` become `_`.
pub open spec fn safe_ip(ip: Seq<char>) -> Seq<char> {
    replace_char(replace_char(replace_char(trim(ip), ':', '-'), '/', '_'), '\\', '_')
}

/// A bridge identifier made safe as a file name: trimmed, ASCII lower case, and every
/// character but ASCII letters, digits, `-` and `_` becomes `_`.
pub open spec fn safe_id(id: Seq<char>) -> Seq<char> {
    lower(trim(id)).map_values(
        |c: char|
            if ('a' <= c && c <= 'z') || ('A' <= c && c <= 'Z') || ('0' <= c && c <= '9') || c
                == '-' || c == '_' {
                c
            } else {
                '_'
            },
    )
}

/// `safe_ip` on a string.
pub fn sanitize_ip(bridge_ip: &str) -> (r: Vec<char>)
    ensures
        r@ == safe_ip(bridge_ip@),
{
    let t = trim_str(bridge_ip);
    let a = replace_char_exec(&t, ':', '-');
    let b = replace_char_exec(&a, '/', '_');
    replace_char_exec(&b, '\\', '_')
}

/// `safe_id` on a string.
pub fn sanitize_id(bridge_id: &str) -> (r: Vec<char>)
    ensures
        r@ == safe_id(bridge_id@),
{
    let t = trim_str(bridge_id);
    let l = lower_chars(&t);
    let mut out: Vec<char> = Vec::new();
    for i in 0..l.len()
        invariant
            out@ == safe_id(bridge_id@).take(i as int),
            l@ == lower(trim(bridge_id@)),
    {
        let c = l[i];
        let keep = ('a' <= c && c <= 'z') || ('A' <= c && c <= 'Z') || ('0' <= c && c <= '9') || c
            == '-' || c == '_';
        out.push(if keep { c } else { '_' });
        assert(safe_id(bridge_id@).take(i + 1) =~= safe_id(bridge_id@).take(i as int).push(
            if keep { c } else { '_' },
        ));
    }
    assert(safe_id(bridge_id@).take(l.len() as int) =~= safe_id(bridge_id@));
    out
}

/// The pin file name for a safe key: `<key>.spki.sha256` or, for the legacy kind,
/// `<key>.sha256`.
pub open spec fn pin_file_name(key: Seq<char>, kind: BridgeTlsPinKind) -> Seq<char> {
    match kind {
        BridgeTlsPinKind::Spki => key + ".spki.sha256"@,
        BridgeTlsPinKind::LeafCertDer => key + ".sha256"@,
    }
}

/// `pin_file_name` on characters.
pub fn pin_filename(safe_key: &[char], kind: BridgeTlsPinKind) -> (r: String)
    ensures
        r@ == pin_file_name(safe_key@, kind),
{
    let mut s = String::new();
    push_chars(&mut s, safe_key);
    match kind {
        BridgeTlsPinKind::Spki => push_str_chars(&mut s, ".spki.sha256"),
        BridgeTlsPinKind::LeafCertDer => push_str_chars(&mut s, ".sha256"),
    }
    s
}

/// The pin files to try, most specific first: by bridge identifier (when one is given and not
/// blank), then by address, and for the SPKI kind also the legacy file of the address.
pub open spec fn pin_paths(root: Seq<char>, ip: Seq<char>, id: Option<Seq<char>>, kind: BridgeTlsPinKind) -> Seq<Seq<char>> {
    let dir = join_path(root, "hue-tls-pins"@);
    let by_id: Seq<Seq<char>> = match id {
        Some(i) if trim(i).len() > 0 => seq![join_path(join_path(dir, "by-id"@), pin_file_name(safe_id(i), kind))],
        _ => Seq::empty(),
    };
    let legacy: Seq<Seq<char>> = if kind == BridgeTlsPinKind::Spki {
        seq![join_path(dir, safe_ip(ip) + ".sha256"@)]
    } else {
        Seq::empty()
    };
    by_id + seq![join_path(dir, pin_file_name(safe_ip(ip), kind))] + legacy
}

/// The views of a list of strings.
pub open spec fn string_views(v: Seq<String>) -> Seq<Seq<char>> {
    v.map_values(|s: String| s@)
}

/// The pin files to try under `root` (see `lumaway_config_root`), most specific first.
pub fn bridge_pin_paths(root: &str, bridge_ip: &str, bridge_id: Option<&str>, kind: BridgeTlsPinKind) -> (r: Vec<String>)
    ensures
        string_views(r@) == pin_paths(root@, bridge_ip@, opt_view(bridge_id), kind),
        r@.len() >= 1,
{
    let dir = join_path_exec(root, "hue-tls-pins");
    let mut paths: Vec<String> = Vec::new();
    let ghost by_id: Seq<Seq<char>> = Seq::empty();
    if let Some(id) = bridge_id {
        let t = trim_str(id);
        if t.len() > 0 {
            let by_id_dir = join_path_exec(dir.as_str(), "by-id");
            let key = sanitize_id(id);
            let name = pin_filename(&key, kind);
            let p = join_path_exec(by_id_dir.as_str(), name.as_str());
            paths.push(p);
        }
    }
    let ip_key = sanitize_ip(bridge_ip);
    let name = pin_filename(&ip_key, kind);
    paths.push(join_path_exec(dir.as_str(), name.as_str()));
    if kind == BridgeTlsPinKind::Spki {
        let mut legacy_name = String::new();
        push_chars(&mut legacy_name, &ip_key);
        push_str_chars(&mut legacy_name, ".sha256");
        paths.push(join_path_exec(dir.as_str(), legacy_name.as_str()));
    }
    assert(string_views(paths@) =~= pin_paths(root@, bridge_ip@, opt_view(bridge_id), kind));
    paths
}

/// The main pin file: the first candidate for the identifier and the mode, given the values
/// of `LUMAWAY_BRIDGE_ID` and `LUMAWAY_HUE_PIN_MODE`.
pub fn bridge_pin_file_path(root: &str, bridge_ip: &str, bridge_id_env: Option<&str>, pin_mode_env: Option<&str>) -> (r: String)
    ensures
        r@ == pin_paths(
            root@,
            bridge_ip@,
            non_empty(opt_view(bridge_id_env)),
            pin_kind_of_mode(opt_view(pin_mode_env)),
        )[0],
{
    let id = bridge_id_from_env(bridge_id_env);
    let kind = bridge_tls_pin_kind(pin_mode_env);
    let paths = match &id {
        Some(s) => bridge_pin_paths(root, bridge_ip, Some(s.as_str()), kind),
        None => bridge_pin_paths(root, bridge_ip, None, kind),
    };
    paths[0].clone()
}

/// `Path::file_name` for `/`-separated paths: the last component that is neither empty nor
/// `.`, unless there is none or it is `..`.
pub open spec fn file_name(path: Seq<char>) -> Option<Seq<char>> {
    let comps = split_char(path, '/').filter(|c: Seq<char>| c.len() > 0 && c != "."@);
    if comps.len() == 0 || comps.last() == ".."@ {
        None
    } else {
        Some(comps.last())
    }
}

/// The kind of pin a file holds, by its name: `.spki.sha256` files hold SPKI pins.
pub open spec fn pin_kind_of_path(path: Seq<char>) -> BridgeTlsPinKind {
    match file_name(path) {
        Some(n) if ends_with(n, ".spki.sha256"@) => BridgeTlsPinKind::Spki,
        _ => BridgeTlsPinKind::LeafCertDer,
    }
}

/// `Path::file_name` on `/`-separated paths.
pub fn file_name_exec(path: &str) -> (r: Option<Vec<char>>)
    ensures
        match file_name(path@) {
            Some(n) => r matches Some(v) && v@ == n,
            None => r is None,
        },
{
    let chars = chars_of(path);
    let pieces = split_char_exec(&chars, '/');
    let ghost pv = views(pieces@);
    let mut last: Option<usize> = None;
    for i in 0..pieces.len()
        invariant
            pv == views(pieces@),
            pv == split_char(path@, '/'),
            match last {
                Some(k) => k < i && pv.take(i as int).filter(|c: Seq<char>| c.len() > 0 && c != "."@).len() > 0
                    && pv.take(i as int).filter(|c: Seq<char>| c.len() > 0 && c != "."@).last() == pv[k as int],
                None => pv.take(i as int).filter(|c: Seq<char>| c.len() > 0 && c != "."@).len() == 0,
            },
    {
        let ghost f = |c: Seq<char>| c.len() > 0 && c != "."@;
        assert(pv.take(i + 1).drop_last() =~= pv.take(i as int));
        proof {
            vstd::seq_lib::lemma_seq_take_len(pv, i + 1);
        }
        assert(pv.take(i + 1).filter(f) == {
            let p = pv.take(i as int).filter(f);
            if f(pv[i as int]) {
                p.push(pv[i as int])
            } else {
                p
            }
        }) by {
            reveal(Seq::filter);
            assert(pv.take(i + 1).last() == pv[i as int]);
        }
        if pieces[i].len() > 0 && !eq_str(&pieces[i], ".") {
            last = Some(i);
        }
    }
    assert(pv.take(pieces.len() as int) =~= pv);
    match last {
        None => None,
        Some(k) => {
            if eq_str(&pieces[k], "..") {
                None
            } else {
                Some(pieces[k].clone())
            }
        },
    }
}

/// The kind of pin a file holds, by its name.
pub fn pin_kind_for_path(path: &str) -> (r: BridgeTlsPinKind)
    ensures
        r == pin_kind_of_path(path@),
{
    match file_name_exec(path) {
        Some(n) => {
            if ends_with_str(&n, ".spki.sha256") {
                BridgeTlsPinKind::Spki
            } else {
                BridgeTlsPinKind::LeafCertDer
            }
        },
        None => BridgeTlsPinKind::LeafCertDer,
    }
}

/// `a == b` without an early exit: the differences of all 32 bytes are folded together.
pub fn constant_time_eq_32(a: &[u8; 32], b: &[u8; 32]) -> (r: bool)
    ensures
        r == (a@ == b@),
{
    let mut acc: u8 = 0;
    for i in 0..32
        invariant
            (acc == 0) == (forall|k: int| 0 <= k < i ==> a@[k] == b@[k]),
    {
        let x = a[i];
        let y = b[i];
        assert(((acc | (x ^ y)) == 0) == (acc == 0 && x == y)) by (bit_vector);
        acc = acc | (x ^ y);
    }
    if acc == 0 {
        assert(a@ =~= b@);
    }
    acc == 0
}

/// A pin read from a file, with the kind its file name announces.
#[derive(Debug, Clone, Copy)]
pub struct LoadedPin {
    pub digest: [u8; 32],
    pub kind: BridgeTlsPinKind,
}

/// The message for a pin file of the wrong size.
pub open spec fn pin_length_message(path: Seq<char>, len: nat) -> Seq<char> {
    "pin file "@ + path + ": expected 32 bytes, got "@ + nat_decimal(len)
}

/// The pin stored in the file `path` whose bytes are given: exactly 32 bytes are required.
pub fn pin_from_file(path: &str, bytes: &[u8]) -> (r: Result<LoadedPin, HueError>)
    ensures
        bytes@.len() == 32 ==> (r matches Ok(p) && p.digest@ == bytes@ && p.kind
            == pin_kind_of_path(path@)),
        bytes@.len() != 32 ==> (r matches Err(HueError::TlsPin(m)) && m@ == pin_length_message(
            path@,
            bytes@.len(),
        )),
{
    if bytes.len() != 32 {
        let mut msg = String::new();
        push_str_chars(&mut msg, "pin file ");
        push_str_chars(&mut msg, path);
        push_str_chars(&mut msg, ": expected 32 bytes, got ");
        let n = u64_decimal(bytes.len() as u64);
        push_chars(&mut msg, &n);
        return Err(HueError::TlsPin(msg));
    }
    let mut digest = [0u8; 32];
    for i in 0..32
        invariant
            bytes@.len() == 32,
            forall|k: int| 0 <= k < i ==> digest@[k] == bytes@[k],
    {
        digest[i] = bytes[i];
    }
    assert(digest@ =~= bytes@);
    Ok(LoadedPin { digest, kind: pin_kind_for_path(path) })
}

/// Whether a stored pin file's bytes are exactly the given pin.
pub fn stored_pin_matches(existing: &[u8], hash: &[u8; 32]) -> (r: bool)
    ensures
        r == (existing@ == hash@),
{
    if existing.len() != 32 {
        return false;
    }
    let mut prev = [0u8; 32];
    for i in 0..32
        invariant
            existing@.len() == 32,
            forall|k: int| 0 <= k < i ==> prev@[k] == existing@[k],
    {
        prev[i] = existing[i];
    }
    assert(prev@ =~= existing@);
    constant_time_eq_32(&prev, hash)
}

/// SHA-256 of a byte string (`sha2::Sha256::digest`), a function of its input alone.
pub uninterp spec fn sha256_digest(data: Seq<u8>) -> Seq<u8>;

/// The DER SubjectPublicKeyInfo of an X.509 end-entity certificate given in DER, or none
/// when `webpki` cannot parse it (`EndEntityCert::try_from` and `subject_public_key_info`).
pub uninterp spec fn cert_spki(der: Seq<u8>) -> Option<Seq<u8>>;

/// `sha2::Sha256::digest`: the 32-byte SHA-256 of `data`, named `sha256_digest`.
#[verifier::external_body]
fn sha256(data: &[u8]) -> (r: [u8; 32])
    ensures
        r@ == sha256_digest(data@),
{
    let digest = <sha2::Sha256 as sha2::Digest>::digest(data);
    let mut out = [0u8; 32];
    out.copy_from_slice(digest.as_slice());
    out
}

/// `webpki::EndEntityCert::try_from` on the DER certificate, then `subject_public_key_info`:
/// the SPKI bytes, or none when the certificate does not parse; named `cert_spki`.
#[verifier::external_body]
fn end_entity_spki(der: &[u8]) -> (r: Option<Vec<u8>>)
    ensures
        match r {
            Some(v) => cert_spki(der@) == Some(v@),
            None => cert_spki(der@) is None,
        },
{
    let cert = rustls::pki_types::CertificateDer::from(der.to_vec());
    match webpki::EndEntityCert::try_from(&cert) {
        Ok(parsed) => Some(parsed.subject_public_key_info().as_ref().to_vec()),
        Err(_) => None,
    }
}

/// The pin of a leaf certificate for a kind: the hash of its SPKI or of the whole DER; none
/// when the SPKI is asked for and the certificate does not parse.
pub open spec fn pin_digest(der: Seq<u8>, kind: BridgeTlsPinKind) -> Option<Seq<u8>> {
    match kind {
        BridgeTlsPinKind::LeafCertDer => Some(sha256_digest(der)),
        BridgeTlsPinKind::Spki => match cert_spki(der) {
            Some(s) => Some(sha256_digest(s)),
            None => None,
        },
    }
}

/// The pin of a leaf certificate for a kind, or `None` for a certificate that does not parse.
pub fn compute_pin_digest(der: &[u8], kind: BridgeTlsPinKind) -> (r: Option<[u8; 32]>)
    ensures
        match pin_digest(der@, kind) {
            Some(d) => r matches Some(x) && x@ == d,
            None => r is None,
        },
{
    match kind {
        BridgeTlsPinKind::LeafCertDer => Some(sha256(der)),
        BridgeTlsPinKind::Spki => match end_entity_spki(der) {
            Some(spki) => Some(sha256(&spki)),
            None => None,
        },
    }
}

/// What a handshake does with the bridge's leaf certificate.
#[derive(Debug, Clone, Copy, PartialEq, Eq)]
pub enum PinVerdict {
    /// The certificate matches the stored pin.
    Accept,
    /// No pin is stored yet: store this one and accept.
    Learn([u8; 32]),
    /// The certificate is empty or does not parse.
    BadEncoding,
    /// The certificate does not match the stored pin.
    Mismatch,
}

/// The verdict on a leaf certificate: against the stored pin when there is one, else the pin
/// to learn (of the kind `learn_kind`).
pub open spec fn pin_verdict(der: Seq<u8>, expected: Option<LoadedPin>, learn_kind: BridgeTlsPinKind) -> PinVerdict {
    if der.len() == 0 {
        PinVerdict::BadEncoding
    } else {
        match expected {
            Some(p) => match pin_digest(der, p.kind) {
                Some(d) => if d == p.digest@ {
                    PinVerdict::Accept
                } else {
                    PinVerdict::Mismatch
                },
                None => PinVerdict::BadEncoding,
            },
            None => match pin_digest(der, learn_kind) {
                Some(d) => PinVerdict::Learn(
                    choose|a: [u8; 32]| a@ == d,
                ),
                None => PinVerdict::BadEncoding,
            },
        }
    }
}

/// Checks the bridge's leaf certificate against the stored pin, or yields the pin to learn.
pub fn check_server_cert(der: &[u8], expected: Option<LoadedPin>, learn_kind: BridgeTlsPinKind) -> (r: PinVerdict)
    ensures
        match pin_verdict(der@, expected, learn_kind) {
            PinVerdict::Learn(_) => r matches PinVerdict::Learn(h) && pin_digest(der@, learn_kind)
                == Some(h@),
            v => r == v,
        },
{
    if der.len() == 0 {
        return PinVerdict::BadEncoding;
    }
    match expected {
        Some(p) => match compute_pin_digest(der, p.kind) {
            Some(observed) => {
                if constant_time_eq_32(&p.digest, &observed) {
                    PinVerdict::Accept
                } else {
                    PinVerdict::Mismatch
                }
            },
            None => PinVerdict::BadEncoding,
        },
        None => match compute_pin_digest(der, learn_kind) {
            Some(h) => PinVerdict::Learn(h),
            None => PinVerdict::BadEncoding,
        },
    }
}

/// Splitting at `c` around an occurrence of `c` splits both sides.
proof fn lemma_split_around(a: Seq<char>, c: char, b: Seq<char>)
    ensures
        split_char(a + seq![c] + b, c) == split_char(a, c) + split_char(b, c),
    decreases a.len(),
{
    let s = a + seq![c] + b;
    crate::text::lemma_find_char(a, c);
    let i0 = crate::text::find_char(a, c);
    if i0 < a.len() {
        assert forall|k: int| 0 <= k < i0 implies s[k] != c by {
            assert(s[k] == a[k]);
        }
        assert(s[i0] == a[i0]);
        crate::text::lemma_find_char_at(s, c, i0);
        let rest = a.subrange(i0 + 1, a.len() as int);
        lemma_split_around(rest, c, b);
        assert(s.subrange(0, i0) =~= a.subrange(0, i0));
        assert(s.subrange(i0 + 1, s.len() as int) =~= rest + seq![c] + b);
        assert(split_char(s, c) =~= split_char(a, c) + split_char(b, c));
    } else {
        assert forall|k: int| 0 <= k < a.len() implies s[k] != c by {
            assert(s[k] == a[k]);
        }
        crate::text::lemma_find_char_at(s, c, a.len() as int);
        assert(s.subrange(0, a.len() as int) =~= a);
        assert(s.subrange(a.len() as int + 1, s.len() as int) =~= b);
        assert(split_char(s, c) =~= split_char(a, c) + split_char(b, c));
    }
}

/// A sequence without `c` is one piece.
proof fn lemma_split_single(b: Seq<char>, c: char)
    requires
        forall|k: int| 0 <= k < b.len() ==> b[k] != c,
    ensures
        split_char(b, c) == seq![b],
{
    crate::text::lemma_find_char_at(b, c, b.len() as int);
}

/// The file name of a path joined from a base and a plain name is that name.
proof fn lemma_file_name_of_join(base: Seq<char>, name: Seq<char>)
    requires
        name.len() > 2,
        forall|k: int| 0 <= k < name.len() ==> name[k] != '/',
    ensures
        file_name(join_path(base, name)) == Some(name),
{
    reveal_strlit(".");
    reveal_strlit("..");
    let f = |c: Seq<char>| c.len() > 0 && c != "."@;
    lemma_split_single(name, '/');
    let path = join_path(base, name);
    let pieces = split_char(path, '/');
    let pre: Seq<Seq<char>> = if base.len() == 0 {
        Seq::empty()
    } else if base.last() == '/' {
        split_char(base.drop_last(), '/')
    } else {
        split_char(base, '/')
    };
    if base.len() == 0 {
        assert(pieces == seq![name]);
        assert(pieces =~= pre + seq![name]);
    } else if base.last() == '/' {
        assert(path =~= base.drop_last() + seq!['/'] + name);
        lemma_split_around(base.drop_last(), '/', name);
    } else {
        lemma_split_around(base, '/', name);
    }
    assert(pieces == pre + seq![name]);
    Seq::filter_distributes_over_add(pre, seq![name], f);
    reveal(Seq::filter);
    assert(seq![name].drop_last() =~= Seq::<Seq<char>>::empty());
    assert(Seq::<Seq<char>>::empty().filter(f) =~= Seq::<Seq<char>>::empty());
    assert(name != "."@);
    assert(name != ".."@);
    assert(seq![name].filter(f) =~= seq![name]);
}

/// A safe address holds no `/`.
proof fn lemma_safe_ip_plain(ip: Seq<char>)
    ensures
        forall|k: int| 0 <= k < safe_ip(ip).len() ==> safe_ip(ip)[k] != '/',
{
}

/// A safe identifier holds only ASCII letters, digits, `-` and `_`.
proof fn lemma_safe_id_plain(id: Seq<char>)
    ensures
        forall|k: int| 0 <= k < safe_id(id).len() ==> safe_id(id)[k] != '/' && safe_id(id)[k] != '.',
{
}

/// The kind a pin file name announces.
proof fn lemma_pin_file_name_kind(key: Seq<char>, kind: BridgeTlsPinKind)
    requires
        kind == BridgeTlsPinKind::LeafCertDer ==> !ends_with(key, ".spki"@),
    ensures
        ends_with(pin_file_name(key, kind), ".spki.sha256"@) == (kind == BridgeTlsPinKind::Spki),
        pin_file_name(key, kind).len() > 2,
{
    reveal_strlit(".spki.sha256");
    reveal_strlit(".sha256");
    reveal_strlit(".spki");
    let n = pin_file_name(key, kind);
    match kind {
        BridgeTlsPinKind::Spki => {
            assert(n.subrange(n.len() - 12, n.len() as int) =~= ".spki.sha256"@);
        },
        BridgeTlsPinKind::LeafCertDer => {
            if ends_with(n, ".spki.sha256"@) {
                assert(key.len() >= 5);
                assert(key.subrange(key.len() - 5, key.len() as int) =~= n.subrange(
                    n.len() - 12,
                    n.len() - 7,
                ));
                assert(n.subrange(n.len() - 12, n.len() - 7) =~= ".spki"@);
            }
        },
    }
}

/// The first candidate pin file is of the kind asked for, so the file a new pin is learned
/// into is always among the candidates. The exception: a legacy-kind pin looked up by an
/// address whose safe form ends in `.spki`.
pub proof fn law_first_pin_path_has_kind(root: Seq<char>, ip: Seq<char>, id: Option<Seq<char>>, kind: BridgeTlsPinKind)
    requires
        kind == BridgeTlsPinKind::LeafCertDer && !(id matches Some(i) && trim(i).len() > 0)
            ==> !ends_with(safe_ip(ip), ".spki"@),
    ensures
        pin_paths(root, ip, id, kind).len() >= 1,
        pin_kind_of_path(pin_paths(root, ip, id, kind)[0]) == kind,
{
    reveal_strlit(".spki");
    let dir = join_path(root, "hue-tls-pins"@);
    match id {
        Some(i) if trim(i).len() > 0 => {
            let key = safe_id(i);
            lemma_safe_id_plain(i);
            if ends_with(key, ".spki"@) {
                assert(key[key.len() - 5] == key.subrange(key.len() - 5, key.len() as int)[0]);
            }
            lemma_pin_file_name_kind(key, kind);
            let name = pin_file_name(key, kind);
            assert forall|k: int| 0 <= k < name.len() implies name[k] != '/' by {
                reveal_strlit(".spki.sha256");
                reveal_strlit(".sha256");
                if k < key.len() {
                    assert(name[k] == key[k]);
                }
            }
            lemma_file_name_of_join(join_path(dir, "by-id"@), name);
        },
        _ => {
            let key = safe_ip(ip);
            lemma_safe_ip_plain(ip);
            lemma_pin_file_name_kind(key, kind);
            let name = pin_file_name(key, kind);
            assert forall|k: int| 0 <= k < name.len() implies name[k] != '/' by {
                reveal_strlit(".spki.sha256");
                reveal_strlit(".sha256");
                if k < key.len() {
                    assert(name[k] == key[k]);
                }
            }
            lemma_file_name_of_join(dir, name);
        },
    }
}

} // verus!
