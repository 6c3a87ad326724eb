//! What the library knows of a bridge before and after pairing, and the reading of SSDP
//! discovery answers.
use vstd::prelude::*;
use crate::text::{
    chars_of, contains, contains_str, eq_chars, find_char, find_char_exec, lines, lines_exec,
    lower, lower_chars, slice_chars, split_once, split_once_exec, split_once_sub,
    split_once_sub_exec, string_of, trim, trim_chars, views,
};

verus! {

broadcast use vstd::string::group_string_axioms;

/// Keys issued by the bridge when pairing: the application key and, for streaming, the
/// client key.
#[derive(Debug, Clone)]
pub struct BridgeUser {
    pub app_key: String,
    pub client_key: Option<String>,
}

/// The bridge's identifier and name.
#[derive(Debug, Clone)]
pub struct BridgeInfo {
    pub id: String,
    pub name: String,
}

/// A bridge found on the network: its identifier and address.
#[derive(Debug, Clone)]
pub struct BridgeDiscovery {
    pub id: String,
    pub ip: String,
}

/// The address of the bridge and the keys known for it.
#[derive(Debug, Clone)]
pub struct HueBridgeConfig {
    pub bridge_ip: String,
    pub app_key: Option<String>,
    pub client_key: Option<String>,
}

impl HueBridgeConfig {
    /// A bridge address without keys.
    pub fn new(bridge_ip: String) -> (r: HueBridgeConfig)
        ensures
            r.bridge_ip@ == bridge_ip@,
            r.app_key is None,
            r.client_key is None,
    {
        HueBridgeConfig { bridge_ip, app_key: None, client_key: None }
    }
}

/// The value of header `name` on one response line: the line is split at its first `:`,
/// the trimmed key is compared ignoring ASCII case, and the value is trimmed.
pub open spec fn header_in_line(line: Seq<char>, name: Seq<char>) -> Option<Seq<char>> {
    match split_once(line, ':') {
        Some((k, v)) => if lower(trim(k)) == lower(name) {
            Some(trim(v))
        } else {
            None
        },
        None => None,
    }
}

/// The value of header `name` on the first line that carries it.
pub open spec fn first_header(ls: Seq<Seq<char>>, name: Seq<char>) -> Option<Seq<char>>
    decreases ls.len(),
{
    if ls.len() == 0 {
        None
    } else {
        match header_in_line(ls[0], name) {
            Some(v) => Some(v),
            None => first_header(ls.drop_first(), name),
        }
    }
}

/// The value of header `name` in an HTTP-style response.
pub open spec fn header(response: Seq<char>, name: Seq<char>) -> Option<Seq<char>> {
    first_header(lines(response), name)
}

/// The value of header `name` in a response.
pub fn header_value(response: &str, name: &str) -> (r: Option<String>)
    ensures
        match header(response@, name@) {
            Some(v) => r matches Some(s) && s@ == v,
            None => r is None,
        },
{
    let chars = chars_of(response);
    let ls = lines_exec(&chars);
    let ghost lv = views(ls@);
    let n = chars_of(name);
    let nl = lower_chars(&n);
    let mut i: usize = 0;
    assert(lv.subrange(0, lv.len() as int) =~= lv);
    while i < ls.len()
        invariant
            i <= ls.len(),
            lv == views(ls@),
            lv == lines(response@),
            nl@ == lower(name@),
            first_header(lv, name@) == first_header(lv.subrange(i as int, lv.len() as int), name@),
        decreases ls.len() - i,
    {
        let ghost rest = lv.subrange(i as int, lv.len() as int);
        assert(rest[0] == ls@[i as int]@);
        assert(rest.drop_first() =~= lv.subrange(i + 1, lv.len() as int));
        if let Some((k, v)) = split_once_exec(&ls[i], ':') {
            let kt = trim_chars(&k);
            let kl = lower_chars(&kt);
            if eq_chars(&kl, &nl) {
                let vt = trim_chars(&v);
                return Some(string_of(&vt));
            }
        }
        i = i + 1;
    }
    None
}

/// The host of a URL: after the scheme, before the first `/` and then before the first `:`,
/// trimmed; none when it is empty.
pub open spec fn url_host(url: Seq<char>) -> Option<Seq<char>> {
    let w = match split_once_sub(url, "://"@) {
        Some((_, rest)) => rest,
        None => url,
    };
    let host_port = trim(w.subrange(0, find_char(w, '/')));
    let host = trim(host_port.subrange(0, find_char(host_port, ':')));
    if host.len() > 0 {
        Some(host)
    } else {
        None
    }
}

/// The host of a URL such as `http://192.168.1.108:80/description.xml`.
pub fn host_from_url(url: &str) -> (r: Option<String>)
    ensures
        match url_host(url@) {
            Some(h) => r matches Some(s) && s@ == h,
            None => r is None,
        },
{
    let u = chars_of(url);
    let sep = chars_of("://");
    let w = match split_once_sub_exec(&u, &sep) {
        Some((_, rest)) => rest,
        None => u,
    };
    let slash = find_char_exec(&w, '/');
    proof {
        crate::text::lemma_find_char(w@, '/');
    }
    let hp_raw = slice_chars(&w, 0, slash);
    let hp = trim_chars(&hp_raw);
    let colon = find_char_exec(&hp, ':');
    proof {
        crate::text::lemma_find_char(hp@, ':');
    }
    let host_raw = slice_chars(&hp, 0, colon);
    let host = trim_chars(&host_raw);
    if host.len() > 0 {
        Some(string_of(&host))
    } else {
        None
    }
}

/// An SSDP answer names a bridge when, ignoring ASCII case, it mentions `hue-bridgeid`,
/// `ipbridge` or `philips hue`.
pub open spec fn mentions_bridge(response: Seq<char>) -> bool {
    let l = lower(response);
    contains(l, "hue-bridgeid"@) || contains(l, "ipbridge"@) || contains(l, "philips hue"@)
}

/// The bridge an SSDP answer announces, as (identifier, address): the address is the host
/// of the `LOCATION` header, the identifier the `HUE-BRIDGEID` header or, when that is
/// missing or empty, the address.
pub open spec fn ssdp_bridge(response: Seq<char>) -> Option<(Seq<char>, Seq<char>)> {
    if !mentions_bridge(response) {
        None
    } else {
        match header(response, "location"@) {
            None => None,
            Some(loc) => match url_host(loc) {
                None => None,
                Some(ip) => {
                    let id = match header(response, "hue-bridgeid"@) {
                        Some(v) => v,
                        None => Seq::empty(),
                    };
                    Some((if id.len() == 0 { ip } else { id }, ip))
                },
            },
        }
    }
}

/// The bridge an SSDP answer announces, if it announces one.
pub fn parse_ssdp_bridge_response(response: &str) -> (r: Option<BridgeDiscovery>)
    ensures
        match ssdp_bridge(response@) {
            Some((id, ip)) => r matches Some(b) && b.id@ == id && b.ip@ == ip,
            None => r is None,
        },
{
    let chars = chars_of(response);
    let l = lower_chars(&chars);
    if !contains_str(&l, "hue-bridgeid") && !contains_str(&l, "ipbridge") && !contains_str(
        &l,
        "philips hue",
    ) {
        return None;
    }
    let id = match header_value(response, "hue-bridgeid") {
        Some(v) => v,
        None => String::new(),
    };
    let location = match header_value(response, "location") {
        Some(v) => v,
        None => {
            return None;
        },
    };
    let ip = match host_from_url(location.as_str()) {
        Some(h) => h,
        None => {
            return None;
        },
    };
    let idc = chars_of(id.as_str());
    if idc.len() == 0 {
        let ipc = chars_of(ip.as_str());
        Some(BridgeDiscovery { id: string_of(&ipc), ip })
    } else {
        Some(BridgeDiscovery { id, ip })
    }
}


/// The fields of a bridge's `/api/config` reply that discovery reads: whether `bridgeid` is
/// there (whatever its JSON type), and `bridgeid`, `ipaddress` and `apiversion` where they
/// are strings.
#[derive(Debug, Clone)]
pub struct BridgeConfigFields {
    pub has_bridge_id: bool,
    pub bridge_id: Option<String>,
    pub ip_address: Option<String>,
    pub api_version: Option<String>,
}

/// An optional text by its view.
pub open spec fn opt_text(o: Option<String>) -> Option<Seq<char>> {
    match o {
        Some(s) => Some(s@),
        None => None,
    }
}

/// The fields of a config reply as plain values.
pub open spec fn config_fields(f: BridgeConfigFields) -> (bool, Option<Seq<char>>, Option<Seq<char>>, Option<Seq<char>>) {
    (f.has_bridge_id, opt_text(f.bridge_id), opt_text(f.ip_address), opt_text(f.api_version))
}

/// What `serde_json` reads from a config reply's body (see `read_config_json`): `None`
/// when the body is not a JSON document.
pub uninterp spec fn json_config_fields(body: Seq<char>) -> Option<(bool, Option<Seq<char>>, Option<Seq<char>>, Option<Seq<char>>)>;

/// `serde_json::from_str` into a `serde_json::Value`, then `Value::get` with `as_str` on the
/// three keys. The result is named by `json_config_fields` of the body; the JSON grammar is
/// serde_json's own and is not restated.
#[verifier::external_body]
fn read_config_json(body: &str) -> (r: Option<BridgeConfigFields>)
    ensures
        match json_config_fields(body@) {
            None => r is None,
            Some(f) => r matches Some(g) && config_fields(g) == f,
        },
{
    let value: serde_json::Value = serde_json::from_str(body).ok()?;
    Some(BridgeConfigFields {
        has_bridge_id: value.get("bridgeid").is_some(),
        bridge_id: value.get("bridgeid").and_then(serde_json::Value::as_str).map(str::to_string),
        ip_address: value.get("ipaddress").and_then(serde_json::Value::as_str).map(str::to_string),
        api_version: value.get("apiversion").and_then(serde_json::Value::as_str).map(str::to_string),
    })
}

/// The blank line that ends the headers of an HTTP reply.
pub open spec fn blank_line() -> Seq<char> {
    seq!['\r', '\n', '\r', '\n']
}

/// The body of an HTTP reply as discovery reads it: the text after the first blank line, up
/// to the next one if there is one; the whole reply when it has no blank line.
pub open spec fn reply_body(response: Seq<char>) -> Seq<char> {
    match split_once_sub(response, blank_line()) {
        None => response,
        Some((_, rest)) => match split_once_sub(rest, blank_line()) {
            None => rest,
            Some((body, _)) => body,
        },
    }
}

/// The bridge a config reply describes, as (identifier, address): it must carry `bridgeid`
/// or a textual `apiversion`; a missing identifier or address is the address probed.
pub open spec fn bridge_from_config(
    f: (bool, Option<Seq<char>>, Option<Seq<char>>, Option<Seq<char>>),
    fallback_ip: Seq<char>,
) -> Option<(Seq<char>, Seq<char>)> {
    if f.0 || f.3 is Some {
        Some((
            match f.1 {
                Some(id) => id,
                None => fallback_ip,
            },
            match f.2 {
                Some(ip) => ip,
                None => fallback_ip,
            },
        ))
    } else {
        None
    }
}

/// The bridge that the fields of a config reply describe, if they describe one.
pub fn bridge_from_config_fields(fields: &BridgeConfigFields, fallback_ip: &str) -> (r: Option<BridgeDiscovery>)
    ensures
        match bridge_from_config(config_fields(*fields), fallback_ip@) {
            Some((id, ip)) => r matches Some(b) && b.id@ == id && b.ip@ == ip,
            None => r is None,
        },
{
    if !fields.has_bridge_id && fields.api_version.is_none() {
        return None;
    }
    let id = match &fields.bridge_id {
        Some(id) => id.clone(),
        None => fallback_ip.to_string(),
    };
    let ip = match &fields.ip_address {
        Some(ip) => ip.clone(),
        None => fallback_ip.to_string(),
    };
    Some(BridgeDiscovery { id, ip })
}

/// The bridge that answered a probe of `/api/config` at `fallback_ip`, if the reply is a
/// bridge's.
pub fn parse_bridge_config_response(response: &str, fallback_ip: &str) -> (r: Option<BridgeDiscovery>)
    ensures
        match json_config_fields(reply_body(response@)) {
            None => r is None,
            Some(f) => match bridge_from_config(f, fallback_ip@) {
                Some((id, ip)) => r matches Some(b) && b.id@ == id && b.ip@ == ip,
                None => r is None,
            },
        },
{
    let c = chars_of(response);
    let sep: Vec<char> = vec!['\r', '\n', '\r', '\n'];
    assert(sep@ =~= blank_line());
    let body = match split_once_sub_exec(&c, &sep) {
        None => c,
        Some((_, rest)) => match split_once_sub_exec(&rest, &sep) {
            None => rest,
            Some((b, _)) => b,
        },
    };
    let text = string_of(&body);
    match read_config_json(text.as_str()) {
        None => None,
        Some(fields) => bridge_from_config_fields(&fields, fallback_ip),
    }
}

} // verus!
