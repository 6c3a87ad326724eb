//! The JSON the desktop window reads back from the engine's commands (`auth`, `list-areas`,
//! `discover-bridges`, `bridge-info`, `activate-area`): serde_json reads the document, and
//! the library picks, checks and trims the fields.
use vstd::prelude::*;
use serde_json::Value;
use crate::client::opt_text;
use crate::gui_state::AreaOption;
use crate::text::{chars_of, string_of, trim, trim_str};

verus! {

broadcast use vstd::string::group_string_axioms;

/// A parse outcome by its view: serde_json's message for a document it refused.
pub open spec fn result_view<T, V>(r: Result<T, String>, f: spec_fn(T) -> V) -> Result<V, Seq<char>> {
    match r {
        Ok(v) => Ok(f(v)),
        Err(e) => Err(e@),
    }
}

/// Two optional texts by their views.
pub open spec fn two_texts(p: (Option<String>, Option<String>)) -> (Option<Seq<char>>, Option<Seq<char>>) {
    (opt_text(p.0), opt_text(p.1))
}

/// What serde_json reads from an `auth` reply: the `app_key` and `client_key` strings, or
/// its message when the bytes are not a JSON document (see `read_auth_json`).
pub uninterp spec fn json_auth_fields(bytes: Seq<u8>) -> Result<(Option<Seq<char>>, Option<Seq<char>>), Seq<char>>;

/// `serde_json::from_slice` into a `Value`, its error's text, and `Value::get` with `as_str`
/// on `app_key` and `client_key`; named by `json_auth_fields` of the bytes.
#[verifier::external_body]
fn read_auth_json(bytes: &[u8]) -> (r: Result<(Option<String>, Option<String>), String>)
    ensures
        result_view(r, |p: (Option<String>, Option<String>)| two_texts(p)) == json_auth_fields(bytes@),
{
    let value: Value = serde_json::from_slice(bytes).map_err(|error| error.to_string())?;
    let app_key = value.get("app_key").and_then(Value::as_str).map(str::to_string);
    Ok((app_key, value.get("client_key").and_then(Value::as_str).map(str::to_string)))
}

/// The keys of an `auth` reply: both must be strings.
pub open spec fn auth_keys(f: Result<(Option<Seq<char>>, Option<Seq<char>>), Seq<char>>) -> Result<(Seq<char>, Seq<char>), Seq<char>> {
    match f {
        Err(m) => Err(m),
        Ok((None, _)) => Err("auth response did not contain app_key"@),
        Ok((Some(_), None)) => Err("auth response did not contain client_key"@),
        Ok((Some(a), Some(c))) => Ok((a, c)),
    }
}

/// The application key and client key of an `auth` reply.
pub fn parse_auth_output(bytes: &[u8]) -> (r: Result<(String, String), String>)
    ensures
        match auth_keys(json_auth_fields(bytes@)) {
            Ok((a, c)) => r matches Ok((x, y)) && x@ == a && y@ == c,
            Err(m) => r matches Err(e) && e@ == m,
        },
{
    match read_auth_json(bytes) {
        Err(e) => Err(e),
        Ok((None, _)) => Err("auth response did not contain app_key".to_string()),
        Ok((Some(_), None)) => Err("auth response did not contain client_key".to_string()),
        Ok((Some(a), Some(c))) => Ok((a, c)),
    }
}

/// One entry of a `list-areas` reply by its view: `id` and `name` strings and `lights` as
/// an unsigned integer, where present.
pub open spec fn area_entry(e: (Option<String>, Option<String>, Option<u64>)) -> (Option<Seq<char>>, Option<Seq<char>>, Option<u64>) {
    (opt_text(e.0), opt_text(e.1), e.2)
}

/// The entries of a reply that is a JSON array, `None` for another document, by their view.
pub open spec fn area_entries_view(o: Option<Vec<(Option<String>, Option<String>, Option<u64>)>>) -> Option<Seq<(Option<Seq<char>>, Option<Seq<char>>, Option<u64>)>> {
    match o {
        Some(v) => Some(v@.map_values(|e: (Option<String>, Option<String>, Option<u64>)| area_entry(e))),
        None => None,
    }
}

/// What serde_json reads from a `list-areas` reply (see `read_areas_json`).
pub uninterp spec fn json_area_entries(bytes: Seq<u8>) -> Result<Option<Seq<(Option<Seq<char>>, Option<Seq<char>>, Option<u64>)>>, Seq<char>>;

/// `serde_json::from_slice` into a `Value`, `Value::as_array`, and on each element
/// `Value::get` with `as_str` (`id`, `name`) and `as_u64` (`lights`); named by
/// `json_area_entries` of the bytes.
#[verifier::external_body]
fn read_areas_json(bytes: &[u8]) -> (r: Result<Option<Vec<(Option<String>, Option<String>, Option<u64>)>>, String>)
    ensures
        result_view(r, |o: Option<Vec<(Option<String>, Option<String>, Option<u64>)>>| area_entries_view(o))
            == json_area_entries(bytes@),
{
    let value: Value = serde_json::from_slice(bytes).map_err(|error| error.to_string())?;
    let text = |v: &Value, key: &str| v.get(key).and_then(Value::as_str).map(str::to_string);
    Ok(value.as_array().map(|items| {
        items.iter().map(|a| (text(a, "id"), text(a, "name"), a.get("lights").and_then(Value::as_u64))).collect()
    }))
}

/// The areas of a `list-areas` reply, in order: the entries with an `id` and a `name`
/// string, with the light count where it is an unsigned integer (as a `usize`).
pub open spec fn area_options(es: Seq<(Option<Seq<char>>, Option<Seq<char>>, Option<u64>)>) -> Seq<(Seq<char>, Seq<char>, Option<usize>)>
    decreases es.len(),
{
    if es.len() == 0 {
        Seq::empty()
    } else {
        let prev = area_options(es.drop_last());
        match es.last() {
            (Some(id), Some(name), l) => prev.push((
                id,
                name,
                match l {
                    Some(n) => Some(n as usize),
                    None => None,
                },
            )),
            _ => prev,
        }
    }
}

/// The message for a `list-areas` reply that is not an array.
pub open spec fn areas_not_array() -> Seq<char> {
    "areas response was not a JSON array"@
}

/// Area options by their view.
pub open spec fn area_option_views(v: Seq<AreaOption>) -> Seq<(Seq<char>, Seq<char>, Option<usize>)> {
    v.map_values(|a: AreaOption| (a.id@, a.name@, a.lights))
}

/// The areas listed by a `list-areas` reply.
pub fn parse_areas_output(bytes: &[u8]) -> (r: Result<Vec<AreaOption>, String>)
    ensures
        match json_area_entries(bytes@) {
            Err(m) => r matches Err(e) && e@ == m,
            Ok(None) => r matches Err(e) && e@ == areas_not_array(),
            Ok(Some(es)) => r matches Ok(v) && area_option_views(v@) == area_options(es),
        },
{
    let items = match read_areas_json(bytes) {
        Err(e) => return Err(e),
        Ok(None) => return Err("areas response was not a JSON array".to_string()),
        Ok(Some(items)) => items,
    };
    let ghost es = items@.map_values(|e: (Option<String>, Option<String>, Option<u64>)| area_entry(e));
    let mut out: Vec<AreaOption> = Vec::new();
    for i in 0..items.len()
        invariant
            es == items@.map_values(|e: (Option<String>, Option<String>, Option<u64>)| area_entry(e)),
            area_option_views(out@) == area_options(es.take(i as int)),
    {
        assert(es.take(i + 1).drop_last() =~= es.take(i as int));
        assert(es.take(i + 1).last() == area_entry(items@[i as int]));
        let ghost before = out@;
        match &items[i] {
            (Some(id), Some(name), l) => {
                let lights = match l {
                    Some(n) => Some(*n as usize),
                    None => None,
                };
                let id = id.as_str().to_string();
                let name = name.as_str().to_string();
                out.push(AreaOption { id: id, name: name, lights });
                assert(area_option_views(out@) =~= area_option_views(before).push((id@, name@, lights)));
            },
            _ => {},
        }
    }
    assert(es.take(items.len() as int) =~= es);
    Ok(out)
}

/// A bridge the window can offer: its address and identifier.
#[derive(Debug, Clone, PartialEq, Eq)]
pub struct BridgeOption {
    pub ip: String,
    pub id: String,
}

/// One entry of a discovery reply by its view: whether `internalipaddress` is there, and
/// the `internalipaddress`, `ip` and `id` strings where present.
pub open spec fn discovery_entry(e: (bool, Option<String>, Option<String>, Option<String>)) -> (bool, Option<Seq<char>>, Option<Seq<char>>, Option<Seq<char>>) {
    (e.0, opt_text(e.1), opt_text(e.2), opt_text(e.3))
}

/// The entries of a discovery reply that is an array, by their view.
pub open spec fn discovery_entries_view(o: Option<Vec<(bool, Option<String>, Option<String>, Option<String>)>>) -> Option<Seq<(bool, Option<Seq<char>>, Option<Seq<char>>, Option<Seq<char>>)>> {
    match o {
        Some(v) => Some(v@.map_values(|e: (bool, Option<String>, Option<String>, Option<String>)| discovery_entry(e))),
        None => None,
    }
}

/// What serde_json reads from a `discover-bridges` reply (see `read_discovery_json`).
pub uninterp spec fn json_discovery_entries(bytes: Seq<u8>) -> Result<Option<Seq<(bool, Option<Seq<char>>, Option<Seq<char>>, Option<Seq<char>>)>>, Seq<char>>;

/// `serde_json::from_slice` into a `Value`, `Value::as_array`, and on each element
/// `Value::get` (`internalipaddress`) and `get` with `as_str` (`internalipaddress`, `ip`,
/// `id`); named by `json_discovery_entries` of the bytes.
#[verifier::external_body]
fn read_discovery_json(bytes: &[u8]) -> (r: Result<Option<Vec<(bool, Option<String>, Option<String>, Option<String>)>>, String>)
    ensures
        result_view(r, |o: Option<Vec<(bool, Option<String>, Option<String>, Option<String>)>>| discovery_entries_view(o))
            == json_discovery_entries(bytes@),
{
    let value: Value = serde_json::from_slice(bytes).map_err(|error| error.to_string())?;
    let text = |v: &Value, key: &str| v.get(key).and_then(Value::as_str).map(str::to_string);
    Ok(value.as_array().map(|items| {
        items.iter().map(|b| (b.get("internalipaddress").is_some(), text(b, "internalipaddress"), text(b, "ip"), text(b, "id"))).collect()
    }))
}

/// The bridges of a discovery reply, in order: the address is `internalipaddress` when that
/// key is there, else `ip`; it must be a string that is not blank once trimmed. The
/// identifier is the trimmed `id` string, or empty.
pub open spec fn bridge_options(es: Seq<(bool, Option<Seq<char>>, Option<Seq<char>>, Option<Seq<char>>)>) -> Seq<(Seq<char>, Seq<char>)>
    decreases es.len(),
{
    if es.len() == 0 {
        Seq::empty()
    } else {
        let prev = bridge_options(es.drop_last());
        let e = es.last();
        let address = if e.0 {
            e.1
        } else {
            e.2
        };
        match address {
            Some(a) => if trim(a).len() > 0 {
                prev.push((
                    trim(a),
                    trim(
                        match e.3 {
                            Some(id) => id,
                            None => Seq::empty(),
                        },
                    ),
                ))
            } else {
                prev
            },
            None => prev,
        }
    }
}

/// The message for a discovery reply that is not an array.
pub open spec fn discovery_not_array() -> Seq<char> {
    "discovery response was not a JSON array"@
}

/// Bridge options by their view.
pub open spec fn bridge_option_views(v: Seq<BridgeOption>) -> Seq<(Seq<char>, Seq<char>)> {
    v.map_values(|b: BridgeOption| (b.ip@, b.id@))
}

/// The trimmed text of an optional string; empty for none.
fn trimmed_or_empty(s: &Option<String>) -> (r: String)
    ensures
        r@ == trim(
            match opt_text(*s) {
                Some(t) => t,
                None => Seq::empty(),
            },
        ),
{
    match s {
        Some(t) => string_of(&trim_str(t.as_str())),
        None => {
            let e = String::new();
            assert(trim(Seq::<char>::empty()) =~= Seq::<char>::empty());
            e
        },
    }
}

/// The bridges listed by a `discover-bridges` reply.
pub fn parse_bridge_discovery_output(bytes: &[u8]) -> (r: Result<Vec<BridgeOption>, String>)
    ensures
        match json_discovery_entries(bytes@) {
            Err(m) => r matches Err(e) && e@ == m,
            Ok(None) => r matches Err(e) && e@ == discovery_not_array(),
            Ok(Some(es)) => r matches Ok(v) && bridge_option_views(v@) == bridge_options(es),
        },
{
    let items = match read_discovery_json(bytes) {
        Err(e) => return Err(e),
        Ok(None) => return Err("discovery response was not a JSON array".to_string()),
        Ok(Some(items)) => items,
    };
    let ghost es = items@.map_values(|e: (bool, Option<String>, Option<String>, Option<String>)| discovery_entry(e));
    let mut out: Vec<BridgeOption> = Vec::new();
    for i in 0..items.len()
        invariant
            es == items@.map_values(|e: (bool, Option<String>, Option<String>, Option<String>)| discovery_entry(e)),
            bridge_option_views(out@) == bridge_options(es.take(i as int)),
    {
        assert(es.take(i + 1).drop_last() =~= es.take(i as int));
        assert(es.take(i + 1).last() == discovery_entry(items@[i as int]));
        let ghost before = out@;
        let entry = &items[i];
        let address = if entry.0 {
            &entry.1
        } else {
            &entry.2
        };
        if let Some(a) = address {
            let t = trim_str(a.as_str());
            if t.len() > 0 {
                let ip = string_of(&t);
                let id = trimmed_or_empty(&entry.3);
                out.push(BridgeOption { ip, id });
                assert(bridge_option_views(out@) =~= bridge_option_views(before).push((ip@, id@)));
            }
        }
    }
    assert(es.take(items.len() as int) =~= es);
    Ok(out)
}

/// A bridge's identifier and name as `bridge-info` printed them.
#[derive(Debug, Clone, PartialEq, Eq)]
pub struct BridgeInfoParsed {
    pub id: String,
    pub name: String,
}

/// What serde_json reads from a `bridge-info` reply: the `id` and `name` strings (see
/// `read_bridge_info_json`).
pub uninterp spec fn json_bridge_info_fields(bytes: Seq<u8>) -> Result<(Option<Seq<char>>, Option<Seq<char>>), Seq<char>>;

/// `serde_json::from_slice` into a `Value`, and `Value::get` with `as_str` on `id` and
/// `name`; named by `json_bridge_info_fields` of the bytes.
#[verifier::external_body]
fn read_bridge_info_json(bytes: &[u8]) -> (r: Result<(Option<String>, Option<String>), String>)
    ensures
        result_view(r, |p: (Option<String>, Option<String>)| two_texts(p)) == json_bridge_info_fields(bytes@),
{
    let value: Value = serde_json::from_slice(bytes).map_err(|error| error.to_string())?;
    let id = value.get("id").and_then(Value::as_str).map(str::to_string);
    Ok((id, value.get("name").and_then(Value::as_str).map(str::to_string)))
}

/// The identifier and name of a `bridge-info` reply: the name must be a string that is not
/// blank once trimmed; the identifier is the trimmed `id` string, or empty.
pub open spec fn bridge_info(f: Result<(Option<Seq<char>>, Option<Seq<char>>), Seq<char>>) -> Result<(Seq<char>, Seq<char>), Seq<char>> {
    match f {
        Err(m) => Err(m),
        Ok((id, name)) => match name {
            Some(n) => if trim(n).len() > 0 {
                Ok((
                    trim(
                        match id {
                            Some(i) => i,
                            None => Seq::empty(),
                        },
                    ),
                    trim(n),
                ))
            } else {
                Err("bridge info response did not contain a name"@)
            },
            None => Err("bridge info response did not contain a name"@),
        },
    }
}

/// The identifier and name of a `bridge-info` reply.
pub fn parse_bridge_info_output(bytes: &[u8]) -> (r: Result<BridgeInfoParsed, String>)
    ensures
        match bridge_info(json_bridge_info_fields(bytes@)) {
            Ok((i, n)) => r matches Ok(b) && b.id@ == i && b.name@ == n,
            Err(m) => r matches Err(e) && e@ == m,
        },
{
    let (id, name) = match read_bridge_info_json(bytes) {
        Err(e) => return Err(e),
        Ok(p) => p,
    };
    let id = trimmed_or_empty(&id);
    match name {
        Some(n) => {
            let t = trim_str(n.as_str());
            if t.len() > 0 {
                Ok(BridgeInfoParsed { id, name: string_of(&t) })
            } else {
                Err("bridge info response did not contain a name".to_string())
            }
        },
        None => Err("bridge info response did not contain a name".to_string()),
    }
}

/// What serde_json reads from an `activate-area` or `deactivate-area` reply: the `name`
/// string and the `lights` unsigned integer (see `read_area_state_json`).
pub uninterp spec fn json_area_state_fields(bytes: Seq<u8>) -> Result<(Option<Seq<char>>, Option<u64>), Seq<char>>;

/// `serde_json::from_slice` into a `Value`, and `Value::get` with `as_str` (`name`) and
/// `as_u64` (`lights`); named by `json_area_state_fields` of the bytes.
#[verifier::external_body]
fn read_area_state_json(bytes: &[u8]) -> (r: Result<(Option<String>, Option<u64>), String>)
    ensures
        result_view(r, |p: (Option<String>, Option<u64>)| (opt_text(p.0), p.1)) == json_area_state_fields(bytes@),
{
    let value: Value = serde_json::from_slice(bytes).map_err(|error| error.to_string())?;
    let name = value.get("name").and_then(Value::as_str).map(str::to_string);
    Ok((name, value.get("lights").and_then(Value::as_u64)))
}

/// The zone name and light count of an area reply: the name must be a string that is not
/// blank once trimmed, then the light count an unsigned integer (as a `usize`).
pub open spec fn area_state(f: Result<(Option<Seq<char>>, Option<u64>), Seq<char>>) -> Result<(Seq<char>, usize), Seq<char>> {
    match f {
        Err(m) => Err(m),
        Ok((name, lights)) => match name {
            Some(n) => if trim(n).len() > 0 {
                match lights {
                    Some(l) => Ok((trim(n), l as usize)),
                    None => Err("area response did not contain a lights count"@),
                }
            } else {
                Err("area response did not contain a name"@)
            },
            None => Err("area response did not contain a name"@),
        },
    }
}

/// The zone name and light count of an `activate-area` or `deactivate-area` reply.
pub fn parse_area_state_output(bytes: &[u8]) -> (r: Result<(String, usize), String>)
    ensures
        match area_state(json_area_state_fields(bytes@)) {
            Ok((n, l)) => r matches Ok((x, y)) && x@ == n && y == l,
            Err(m) => r matches Err(e) && e@ == m,
        },
{
    let (name, lights) = match read_area_state_json(bytes) {
        Err(e) => return Err(e),
        Ok(p) => p,
    };
    let n = match name {
        Some(n) => {
            let t = trim_str(n.as_str());
            if t.len() > 0 {
                string_of(&t)
            } else {
                return Err("area response did not contain a name".to_string());
            }
        },
        None => return Err("area response did not contain a name".to_string()),
    };
    match lights {
        Some(l) => Ok((n, l as usize)),
        None => Err("area response did not contain a lights count".to_string()),
    }
}

/// What the window does with the bridges discovery found: none found, or the first one
/// selected, with its identifier saved when it has one, and how many were found.
#[derive(Debug, Clone, PartialEq, Eq)]
pub enum DiscoveryChoice {
    NoneFound,
    Selected { ip: String, id: String, save_id: bool, count: usize },
}

/// The window's choice among discovered bridges: the first one.
pub fn choose_discovered_bridge(bridges: &[BridgeOption]) -> (r: DiscoveryChoice)
    ensures
        bridges@.len() == 0 ==> r == DiscoveryChoice::NoneFound,
        bridges@.len() > 0 ==> (r matches DiscoveryChoice::Selected { ip, id, save_id, count } && ip@
            == bridges@[0].ip@ && id@ == bridges@[0].id@ && save_id == (bridges@[0].id@.len() > 0)
            && count == bridges@.len()),
{
    if bridges.len() == 0 {
        return DiscoveryChoice::NoneFound;
    }
    let first = &bridges[0];
    let ip = first.ip.as_str().to_string();
    let id = first.id.as_str().to_string();
    let save_id = chars_of(first.id.as_str()).len() > 0;
    DiscoveryChoice::Selected { ip, id, save_id, count: bridges.len() }
}

} // verus!
