//! The decisions of the bridge client around its HTTP calls: checking the configuration,
//! reading the pairing reply and response statuses, picking an entertainment area by id or
//! name, merging discovered bridges, and listing the lights of an area.
use vstd::prelude::*;
use crate::client::{BridgeDiscovery, BridgeUser, HueBridgeConfig};
use crate::env_file::last_value;
use crate::error::HueError;
use crate::env_file::pair_views;
use crate::ordered::{holds_last_values, keys_ascending, last_values_by_key, text_less};
use crate::text::{chars_of, eq_chars, eq_str, parse_u64, parse_u64_exec, push_str_chars, trim, trim_str};

verus! {

broadcast use vstd::string::group_string_axioms;

/// A client needs a bridge address that is not blank.
pub fn check_bridge_config(config: &HueBridgeConfig) -> (r: Result<(), HueError>)
    ensures
        trim(config.bridge_ip@).len() == 0 ==> r matches Err(HueError::MissingBridgeIp),
        trim(config.bridge_ip@).len() > 0 ==> r is Ok,
{
    if trim_str(config.bridge_ip.as_str()).len() == 0 {
        Err(HueError::MissingBridgeIp)
    } else {
        Ok(())
    }
}

/// The application key a request is sent with; requests need one.
pub fn request_app_key(app_key: &Option<String>) -> (r: Result<&str, HueError>)
    ensures
        match app_key {
            Some(k) => r matches Ok(s) && s@ == k@,
            None => r matches Err(HueError::MissingAppKey),
        },
{
    match app_key {
        Some(k) => Ok(k.as_str()),
        None => Err(HueError::MissingAppKey),
    }
}

/// The failure a response status stands for: a refused key for 401 and 403, the status
/// itself for any other status outside `200..=299`; none for success.
pub open spec fn status_error(status: u16) -> Option<HueError> {
    if status == 401 || status == 403 {
        Some(HueError::Authentication)
    } else if status < 200 || status > 299 {
        Some(HueError::HttpStatus(status))
    } else {
        None
    }
}

/// The failure a response status stands for, if any.
pub fn status_failure(status: u16) -> (r: Option<HueError>)
    ensures
        r == status_error(status),
{
    if status == 401 || status == 403 {
        Some(HueError::Authentication)
    } else if status < 200 || status > 299 {
        Some(HueError::HttpStatus(status))
    } else {
        None
    }
}

/// The keys in a successful pairing reply.
#[derive(Debug, Clone)]
pub struct PairingSuccess {
    pub username: String,
    pub clientkey: Option<String>,
}

/// One element of the bridge's reply to a pairing request.
#[derive(Debug, Clone)]
pub struct PairingReply {
    pub success: Option<PairingSuccess>,
    /// The description of the bridge's error, if it reported one.
    pub error: Option<String>,
}

/// The keys of a pairing, from the first element of the reply: its success, else its
/// error; an empty reply or one with neither is unexpected.
pub fn bridge_user_from_replies(replies: Vec<PairingReply>) -> (r: Result<BridgeUser, HueError>)
    ensures
        replies@.len() == 0 ==> (r matches Err(HueError::UnexpectedResponse(m)) && m@
            == "empty create user response"@),
        replies@.len() > 0 ==> match (replies@[0].success, replies@[0].error) {
            (Some(s), _) => r matches Ok(u) && u.app_key@ == s.username@ && match (u.client_key, s.clientkey) {
                (Some(a), Some(b)) => a@ == b@,
                (None, None) => true,
                _ => false,
            },
            (None, Some(d)) => r matches Err(HueError::Bridge(m)) && m@ == d@,
            (None, None) => r matches Err(HueError::UnexpectedResponse(m)) && m@
                == "create user response contained no success or error"@,
        },
{
    if replies.len() == 0 {
        return Err(HueError::UnexpectedResponse("empty create user response".to_string()));
    }
    let first = &replies[0];
    match (&first.success, &first.error) {
        (Some(s), _) => {
            let client_key = match &s.clientkey {
                Some(k) => Some(k.clone()),
                None => None,
            };
            Ok(BridgeUser { app_key: s.username.clone(), client_key })
        },
        (None, Some(d)) => Err(HueError::Bridge(d.clone())),
        (None, None) => Err(
            HueError::UnexpectedResponse("create user response contained no success or error".to_string()),
        ),
    }
}

/// An entertainment area's identifier and name.
#[derive(Debug, Clone)]
pub struct AreaName {
    pub id: String,
    pub name: String,
}

/// The positions of the areas whose identifier or name is `r`, among the first `n`.
pub open spec fn matching_areas(areas: Seq<AreaName>, r: Seq<char>, n: int) -> Seq<int>
    decreases n,
{
    if n <= 0 {
        Seq::empty()
    } else {
        let prev = matching_areas(areas, r, n - 1);
        if areas[n - 1].id@ == r || areas[n - 1].name@ == r {
            prev.push(n - 1)
        } else {
            prev
        }
    }
}

/// The area a reference names: exactly one area must have it as identifier or name.
pub open spec fn area_choice(areas: Seq<AreaName>, r: Seq<char>) -> Result<Seq<char>, Seq<char>> {
    let m = matching_areas(areas, r, areas.len() as int);
    if m.len() == 1 {
        Ok(areas[m[0]].id@)
    } else if m.len() == 0 {
        Err("entertainment area not found by id or name: "@ + r)
    } else {
        Err("multiple entertainment areas matched name: "@ + r + "; use the area id instead"@)
    }
}

/// The positions that `matching_areas` lists lie among the first `n`.
proof fn lemma_matching_in_range(areas: Seq<AreaName>, r: Seq<char>, n: int)
    requires
        0 <= n <= areas.len(),
    ensures
        forall|i: int| 0 <= i < matching_areas(areas, r, n).len() ==> 0 <= #[trigger] matching_areas(areas, r, n)[i] < n,
    decreases n,
{
    if n > 0 {
        lemma_matching_in_range(areas, r, n - 1);
        let prev = matching_areas(areas, r, n - 1);
        assert forall|i: int| 0 <= i < matching_areas(areas, r, n).len() implies 0 <= #[trigger] matching_areas(areas, r, n)[i] < n by {
            if i < prev.len() {
                assert(matching_areas(areas, r, n)[i] == prev[i]);
            }
        }
    }
}

/// The area has `r` as its identifier or its name.
pub open spec fn area_matches(a: AreaName, r: Seq<char>) -> bool {
    a.id@ == r || a.name@ == r
}

/// `matching_areas` lists, in increasing order, exactly the positions among the first `n`
/// of the areas that `r` names.
proof fn lemma_matching_areas_exact(areas: Seq<AreaName>, r: Seq<char>, n: int)
    requires
        0 <= n <= areas.len(),
    ensures
        forall|k: int| 0 <= k < matching_areas(areas, r, n).len() ==> {
            &&& 0 <= #[trigger] matching_areas(areas, r, n)[k] < n
            &&& area_matches(areas[matching_areas(areas, r, n)[k]], r)
        },
        forall|a: int, b: int| 0 <= a < b < matching_areas(areas, r, n).len()
            ==> #[trigger] matching_areas(areas, r, n)[a] < #[trigger] matching_areas(areas, r, n)[b],
        forall|j: int| 0 <= j < n && #[trigger] area_matches(areas[j], r)
            ==> exists|k: int| 0 <= k < matching_areas(areas, r, n).len() && matching_areas(areas, r, n)[k] == j,
    decreases n,
{
    if n > 0 {
        lemma_matching_areas_exact(areas, r, n - 1);
        let prev = matching_areas(areas, r, n - 1);
        let m = matching_areas(areas, r, n);
        assert forall|j: int| 0 <= j < n && #[trigger] area_matches(areas[j], r)
            implies exists|k: int| 0 <= k < m.len() && m[k] == j by {
            if j < n - 1 {
                let k = choose|k: int| 0 <= k < prev.len() && prev[k] == j;
                assert(m[k] == prev[k]);
            } else {
                assert(m[prev.len() as int] == j);
            }
        }
    }
}

/// A successful choice is the identifier of an area that the reference names, and of the
/// only one: no other area has the reference as identifier or name.
pub proof fn law_area_choice_is_the_named_area(areas: Seq<AreaName>, r: Seq<char>)
    ensures
        area_choice(areas, r) matches Ok(id) ==> exists|i: int|
            #![trigger areas[i]]
            0 <= i < areas.len() && areas[i].id@ == id && area_matches(areas[i], r) && forall|j: int|
                0 <= j < areas.len() && #[trigger] area_matches(areas[j], r) ==> j == i,
{
    lemma_matching_areas_exact(areas, r, areas.len() as int);
    let m = matching_areas(areas, r, areas.len() as int);
    if m.len() == 1 {
        let i = m[0];
        assert forall|j: int| 0 <= j < areas.len() && #[trigger] area_matches(areas[j], r) implies j == i by {
            let k = choose|k: int| 0 <= k < m.len() && m[k] == j;
        }
        assert(areas[i].id@ == areas[i].id@);
    }
}

/// When exactly one area has the reference as identifier or name, its identifier is chosen.
pub proof fn law_single_named_area_is_chosen(areas: Seq<AreaName>, r: Seq<char>, i: int)
    requires
        0 <= i < areas.len(),
        area_matches(areas[i], r),
        forall|j: int| 0 <= j < areas.len() && #[trigger] area_matches(areas[j], r) ==> j == i,
    ensures
        area_choice(areas, r) == Ok::<Seq<char>, Seq<char>>(areas[i].id@),
{
    lemma_matching_areas_exact(areas, r, areas.len() as int);
    let m = matching_areas(areas, r, areas.len() as int);
    let k = choose|k: int| 0 <= k < m.len() && m[k] == i;
    if m.len() > 1 {
        let other = if k == 0 { 1int } else { 0int };
        assert(area_matches(areas[m[other]], r));
        assert(m[other] != m[k]);
    }
}

/// When no area has the reference as identifier or name, the choice fails as not found.
pub proof fn law_unnamed_area_is_not_found(areas: Seq<AreaName>, r: Seq<char>)
    requires
        forall|j: int| 0 <= j < areas.len() ==> !#[trigger] area_matches(areas[j], r),
    ensures
        area_choice(areas, r) == Err::<Seq<char>, Seq<char>>("entertainment area not found by id or name: "@ + r),
{
    lemma_matching_areas_exact(areas, r, areas.len() as int);
    let m = matching_areas(areas, r, areas.len() as int);
    if m.len() > 0 {
        assert(area_matches(areas[m[0]], r));
    }
}

/// When two areas have the reference as identifier or name, the choice fails as ambiguous.
pub proof fn law_ambiguous_area_is_refused(areas: Seq<AreaName>, r: Seq<char>, i: int, j: int)
    requires
        0 <= i < areas.len(),
        0 <= j < areas.len(),
        i != j,
        area_matches(areas[i], r),
        area_matches(areas[j], r),
    ensures
        area_choice(areas, r) == Err::<Seq<char>, Seq<char>>(
            "multiple entertainment areas matched name: "@ + r + "; use the area id instead"@,
        ),
{
    lemma_matching_areas_exact(areas, r, areas.len() as int);
    let m = matching_areas(areas, r, areas.len() as int);
    let ki = choose|k: int| 0 <= k < m.len() && m[k] == i;
    let kj = choose|k: int| 0 <= k < m.len() && m[k] == j;
    assert(ki != kj);
}

/// The identifier of the area that `area_ref` names (see `area_choice`).
pub fn resolve_area_id(areas: &[AreaName], area_ref: &str) -> (r: Result<String, HueError>)
    ensures
        match area_choice(areas@, area_ref@) {
            Ok(id) => r matches Ok(s) && s@ == id,
            Err(m) => r matches Err(HueError::UnexpectedResponse(e)) && e@ == m,
        },
{
    let key = chars_of(area_ref);
    let mut found: usize = 0;
    let mut count: usize = 0;
    let mut i: usize = 0;
    while i < areas.len()
        invariant
            i <= areas.len(),
            key@ == area_ref@,
            count == matching_areas(areas@, area_ref@, i as int).len(),
            count <= i,
            count > 0 ==> found == matching_areas(areas@, area_ref@, i as int)[0],
        decreases areas.len() - i,
    {
        let id = chars_of(areas[i].id.as_str());
        let name = chars_of(areas[i].name.as_str());
        if eq_chars(&id, &key) || eq_chars(&name, &key) {
            if count == 0 {
                found = i;
            }
            proof {
                let prev = matching_areas(areas@, area_ref@, i as int);
                assert(matching_areas(areas@, area_ref@, i + 1) == prev.push(i as int));
                if count > 0 {
                    assert(prev.push(i as int)[0] == prev[0]);
                }
            }
            count = count + 1;
        }
        i = i + 1;
    }
    proof {
        lemma_matching_in_range(areas@, area_ref@, areas@.len() as int);
    }
    if count == 1 {
        Ok(areas[found].id.clone())
    } else if count == 0 {
        let mut m = String::new();
        push_str_chars(&mut m, "entertainment area not found by id or name: ");
        push_str_chars(&mut m, area_ref);
        Err(HueError::UnexpectedResponse(m))
    } else {
        let mut m = String::new();
        push_str_chars(&mut m, "multiple entertainment areas matched name: ");
        push_str_chars(&mut m, area_ref);
        push_str_chars(&mut m, "; use the area id instead");
        Err(HueError::UnexpectedResponse(m))
    }
}

/// The addresses and identifiers of discovered bridges, in order.
pub open spec fn discovery_pairs(v: Seq<BridgeDiscovery>) -> Seq<(Seq<char>, Seq<char>)> {
    v.map_values(|b: BridgeDiscovery| (b.ip@, b.id@))
}

/// The bridges found by all discovery methods, one per address: sorted by address, each
/// with the identifier of the last report of that address.
pub fn merge_discoveries(found: &[BridgeDiscovery]) -> (r: Vec<BridgeDiscovery>)
    ensures
        keys_ascending(discovery_pairs(r@)),
        holds_last_values(discovery_pairs(r@), discovery_pairs(found@)),
{
    let mut pairs: Vec<(String, String)> = Vec::new();
    let mut i: usize = 0;
    while i < found.len()
        invariant
            i <= found.len(),
            pair_views(pairs@) == discovery_pairs(found@).take(i as int),
        decreases found.len() - i,
    {
        let ghost before = pair_views(pairs@);
        pairs.push((found[i].ip.clone(), found[i].id.clone()));
        assert(pair_views(pairs@) =~= before.push((found@[i as int].ip@, found@[i as int].id@)));
        assert(discovery_pairs(found@).take(i + 1) =~= discovery_pairs(found@).take(i as int).push(
            (found@[i as int].ip@, found@[i as int].id@),
        ));
        i = i + 1;
    }
    assert(discovery_pairs(found@).take(found.len() as int) =~= discovery_pairs(found@));
    let merged = last_values_by_key(&pairs);
    let mut out: Vec<BridgeDiscovery> = Vec::new();
    let mut j: usize = 0;
    while j < merged.len()
        invariant
            j <= merged.len(),
            discovery_pairs(out@) == pair_views(merged@).take(j as int),
        decreases merged.len() - j,
    {
        let ghost before = discovery_pairs(out@);
        out.push(BridgeDiscovery { id: merged[j].1.clone(), ip: merged[j].0.clone() });
        assert(discovery_pairs(out@) =~= before.push((merged@[j as int].0@, merged@[j as int].1@)));
        assert(pair_views(merged@).take(j + 1) =~= pair_views(merged@).take(j as int).push(
            (merged@[j as int].0@, merged@[j as int].1@),
        ));
        j = j + 1;
    }
    assert(pair_views(merged@).take(merged.len() as int) =~= pair_views(merged@));
    out
}

/// A reference to another resource of the bridge: its identifier and its type.
#[derive(Debug, Clone)]
pub struct ResourceRef {
    pub rid: String,
    pub rtype: String,
}

/// The identifiers of the references of type `kind`, in order.
pub open spec fn refs_of_type(refs: Seq<ResourceRef>, kind: Seq<char>) -> Seq<Seq<char>>
    decreases refs.len(),
{
    if refs.len() == 0 {
        Seq::empty()
    } else {
        let prev = refs_of_type(refs.drop_last(), kind);
        if refs.last().rtype@ == kind {
            prev.push(refs.last().rid@)
        } else {
            prev
        }
    }
}

/// The views of texts.
pub open spec fn text_views(v: Seq<String>) -> Seq<Seq<char>> {
    v.map_values(|s: String| s@)
}

/// The identifiers of the entertainment services among an area channel's members, in order.
pub fn entertainment_services(members: &[ResourceRef]) -> (r: Vec<String>)
    ensures
        text_views(r@) == refs_of_type(members@, "entertainment"@),
{
    let mut out: Vec<String> = Vec::new();
    let mut i: usize = 0;
    while i < members.len()
        invariant
            i <= members.len(),
            text_views(out@) == refs_of_type(members@.take(i as int), "entertainment"@),
        decreases members.len() - i,
    {
        assert(members@.take(i + 1).drop_last() =~= members@.take(i as int));
        let kind = chars_of(members[i].rtype.as_str());
        if eq_str(&kind, "entertainment") {
            let ghost before = text_views(out@);
            out.push(members[i].rid.clone());
            assert(text_views(out@) =~= before.push(members@[i as int].rid@));
        }
        i = i + 1;
    }
    assert(members@.take(members.len() as int) =~= members@);
    out
}

/// Every identifier listed for a type comes from a reference of that type, and the other
/// way round.
proof fn lemma_refs_of_type(refs: Seq<ResourceRef>, kind: Seq<char>, x: Seq<char>)
    ensures
        refs_of_type(refs, kind).contains(x) <==> exists|t: int| 0 <= t < refs.len() && (#[trigger] refs[t]).rtype@ == kind && refs[t].rid@ == x,
    decreases refs.len(),
{
    if refs.len() > 0 {
        let init = refs.drop_last();
        lemma_refs_of_type(init, kind, x);
        let prev = refs_of_type(init, kind);
        if refs_of_type(refs, kind).contains(x) {
            if prev.contains(x) {
                let t = choose|t: int| 0 <= t < init.len() && (#[trigger] init[t]).rtype@ == kind && init[t].rid@ == x;
                assert(refs[t] == init[t]);
            } else {
                let n = refs.len() - 1;
                let i = choose|i: int| 0 <= i < refs_of_type(refs, kind).len() && refs_of_type(refs, kind)[i] == x;
                if refs.last().rtype@ == kind {
                    assert(refs_of_type(refs, kind) == prev.push(refs.last().rid@));
                    if i < prev.len() {
                        assert(prev.contains(x));
                    }
                    assert(refs[n].rtype@ == kind && refs[n].rid@ == x);
                }
            }
        }
        if exists|t: int| 0 <= t < refs.len() && (#[trigger] refs[t]).rtype@ == kind && refs[t].rid@ == x {
            let t = choose|t: int| 0 <= t < refs.len() && (#[trigger] refs[t]).rtype@ == kind && refs[t].rid@ == x;
            if t < init.len() {
                assert(init[t] == refs[t]);
                assert(prev.contains(x));
                let i = choose|i: int| 0 <= i < prev.len() && prev[i] == x;
                if refs.last().rtype@ == kind {
                    assert(refs_of_type(refs, kind)[i] == x);
                } else {
                    assert(refs_of_type(refs, kind) == prev);
                }
            } else {
                assert(refs_of_type(refs, kind) == prev.push(refs.last().rid@));
                assert(refs_of_type(refs, kind)[prev.len() as int] == x);
            }
        }
    }
}

/// A key has a last value exactly when some entry carries it.
proof fn lemma_last_value_some(es: Seq<(Seq<char>, Seq<char>)>, k: Seq<char>)
    ensures
        last_value(es, k) is Some <==> exists|i: int| 0 <= i < es.len() && (#[trigger] es[i]).0 == k,
    decreases es.len(),
{
    if es.len() > 0 {
        let init = es.drop_last();
        lemma_last_value_some(init, k);
        if exists|i: int| 0 <= i < es.len() && (#[trigger] es[i]).0 == k {
            let i = choose|i: int| 0 <= i < es.len() && (#[trigger] es[i]).0 == k;
            if i < init.len() {
                assert(init[i] == es[i]);
            }
        }
        if exists|i: int| 0 <= i < init.len() && (#[trigger] init[i]).0 == k {
            let i = choose|i: int| 0 <= i < init.len() && (#[trigger] init[i]).0 == k;
            assert(es[i] == init[i]);
        }
    }
}

/// The distinct identifiers of the lights among the renderers of an area's entertainment
/// services, in ascending order: each one listed comes from a light reference, and every
/// light reference is listed.
pub fn light_ids(renderers: &[ResourceRef]) -> (r: Vec<String>)
    ensures
        forall|i: int, j: int| 0 <= i < j < r@.len() ==> text_less(#[trigger] r@[i]@, #[trigger] r@[j]@),
        forall|x: Seq<char>| text_views(r@).contains(x) <==> refs_of_type(renderers@, "light"@).contains(x),
{
    let ghost lights = refs_of_type(renderers@, "light"@);
    let mut pairs: Vec<(String, String)> = Vec::new();
    let mut i: usize = 0;
    while i < renderers.len()
        invariant
            i <= renderers.len(),
            lights == refs_of_type(renderers@, "light"@),
            pair_views(pairs@) == refs_of_type(renderers@.take(i as int), "light"@).map_values(
                |x: Seq<char>| (x, Seq::<char>::empty()),
            ),
        decreases renderers.len() - i,
    {
        assert(renderers@.take(i + 1).drop_last() =~= renderers@.take(i as int));
        let kind = chars_of(renderers[i].rtype.as_str());
        if eq_str(&kind, "light") {
            let ghost before = pair_views(pairs@);
            pairs.push((renderers[i].rid.clone(), String::new()));
            assert(pair_views(pairs@) =~= before.push((renderers@[i as int].rid@, Seq::<char>::empty())));
        }
        proof {
            let prev = refs_of_type(renderers@.take(i as int), "light"@);
            let next = refs_of_type(renderers@.take(i + 1), "light"@);
            assert(next.map_values(|x: Seq<char>| (x, Seq::<char>::empty())) =~= pair_views(pairs@));
        }
        i = i + 1;
    }
    assert(renderers@.take(renderers.len() as int) =~= renderers@);
    let ghost pv = pair_views(pairs@);
    let merged = last_values_by_key(&pairs);
    let mut out: Vec<String> = Vec::new();
    let mut j: usize = 0;
    while j < merged.len()
        invariant
            j <= merged.len(),
            text_views(out@) == pair_views(merged@).take(j as int).map_values(|p: (Seq<char>, Seq<char>)| p.0),
        decreases merged.len() - j,
    {
        let ghost before = text_views(out@);
        out.push(merged[j].0.clone());
        assert(text_views(out@) =~= before.push(merged@[j as int].0@));
        assert(pair_views(merged@).take(j + 1).map_values(|p: (Seq<char>, Seq<char>)| p.0)
            =~= pair_views(merged@).take(j as int).map_values(|p: (Seq<char>, Seq<char>)| p.0).push(merged@[j as int].0@));
        j = j + 1;
    }
    assert(pair_views(merged@).take(merged.len() as int) =~= pair_views(merged@));
    let ghost mv = pair_views(merged@);
    proof {
        let names = mv.map_values(|p: (Seq<char>, Seq<char>)| p.0);
        assert(text_views(out@) == names);
        assert(out@.len() == mv.len());
        assert forall|a: int, b: int| 0 <= a < b < out@.len() implies text_less(#[trigger] out@[a]@, #[trigger] out@[b]@) by {
            assert(text_views(out@)[a] == out@[a]@);
            assert(text_views(out@)[b] == out@[b]@);
            assert(names[a] == mv[a].0);
            assert(names[b] == mv[b].0);
        }
        assert forall|x: Seq<char>| text_views(out@).contains(x) <==> lights.contains(x) by {
            lemma_last_value_some(pv, x);
            if text_views(out@).contains(x) {
                let a = choose|a: int| 0 <= a < text_views(out@).len() && text_views(out@)[a] == x;
                assert(mv[a].0 == x);
                assert(last_value(pv, mv[a].0) == Some(mv[a].1));
                let e = choose|e: int| 0 <= e < pv.len() && (#[trigger] pv[e]).0 == x;
                assert(lights[e] == x);
            }
            if lights.contains(x) {
                let e = choose|e: int| 0 <= e < lights.len() && lights[e] == x;
                assert(pv[e].0 == x);
                assert(last_value(pv, x) is Some);
                let a = choose|a: int| 0 <= a < mv.len() && mv[a].0 == x;
                assert(text_views(out@)[a] == x);
            }
        }
    }
    out
}

/// An IPv4 address as its four octets.
pub type Octets = (u8, u8, u8, u8);

/// The hosts of the /24 network of `local`, numbered 1 to `upto`, except `local` itself.
pub open spec fn subnet_hosts(local: Octets, upto: int) -> Seq<Octets>
    decreases upto,
{
    if upto <= 0 {
        Seq::empty()
    } else {
        let prev = subnet_hosts(local, upto - 1);
        if upto == local.3 {
            prev
        } else {
            prev.push((local.0, local.1, local.2, upto as u8))
        }
    }
}

/// The addresses a subnet scan probes: for each local address in turn, the hosts 1 to 254
/// of its /24 network except itself.
pub open spec fn scan_candidates(locals: Seq<Octets>) -> Seq<Octets>
    decreases locals.len(),
{
    if locals.len() == 0 {
        Seq::empty()
    } else {
        scan_candidates(locals.drop_last()) + subnet_hosts(locals.last(), 254)
    }
}

/// The addresses a subnet scan probes around the local addresses.
pub fn subnet_scan_candidates(locals: &[Octets]) -> (r: Vec<Octets>)
    requires
        locals@.len() * 254 <= usize::MAX,
    ensures
        r@ == scan_candidates(locals@),
{
    let mut out: Vec<Octets> = Vec::new();
    let mut i: usize = 0;
    while i < locals.len()
        invariant
            i <= locals.len(),
            out@ == scan_candidates(locals@.take(i as int)),
        decreases locals.len() - i,
    {
        let local = locals[i];
        let ghost before = out@;
        let mut host: u8 = 1;
        while host <= 254
            invariant
                1 <= host <= 255,
                out@ == before + subnet_hosts(local, host - 1),
            decreases 255 - host,
        {
            if host != local.3 {
                out.push((local.0, local.1, local.2, host));
            }
            assert(out@ =~= before + subnet_hosts(local, host as int));
            host = host + 1;
        }
        assert(locals@.take(i + 1).drop_last() =~= locals@.take(i as int));
        i = i + 1;
    }
    assert(locals@.take(locals.len() as int) =~= locals@);
    out
}

/// How many probes run at once: the setting's number when it is a valid `usize`, else 64;
/// kept within 1 to 256 and to the number of candidates.
pub open spec fn scan_workers(setting: Option<Seq<char>>, candidates: int) -> int {
    let asked: int = match setting {
        Some(v) => match parse_u64(v) {
            Some(n) if n <= usize::MAX => n as int,
            _ => 64,
        },
        None => 64,
    };
    let clamped = if asked < 1 {
        1
    } else if asked > 256 {
        256
    } else {
        asked
    };
    if clamped <= candidates {
        clamped
    } else {
        candidates
    }
}

/// How many probes a subnet scan runs at once.
pub fn scan_worker_count(setting: Option<&str>, candidates: usize) -> (r: usize)
    ensures
        r == scan_workers(
            match setting {
                Some(v) => Some(v@),
                None => None,
            },
            candidates as int,
        ),
{
    let asked: usize = match setting {
        Some(v) => {
            let c = chars_of(v);
            match parse_u64_exec(&c) {
                Some(n) => if n <= usize::MAX as u64 {
                    n as usize
                } else {
                    64
                },
                None => 64,
            }
        },
        None => 64,
    };
    let clamped = if asked < 1 {
        1
    } else if asked > 256 {
        256
    } else {
        asked
    };
    if clamped <= candidates {
        clamped
    } else {
        candidates
    }
}

/// An address's place in the order of IPv4 addresses.
pub open spec fn addr_rank(a: Octets) -> int {
    a.0 * 16777216 + a.1 * 65536 + a.2 * 256 + a.3
}

/// A local address worth scanning around: private (10/8, 172.16/12, 192.168/16) and not
/// loopback (127/8).
pub open spec fn lan_candidate(a: Octets) -> bool {
    (a.0 == 10 || (a.0 == 172 && 16 <= a.1 && a.1 <= 31) || (a.0 == 192 && a.1 == 168)) && a.0 != 127
}

/// The addresses strictly increase along the list.
pub open spec fn ranks_ascending(v: Seq<Octets>) -> bool {
    forall|i: int, j: int| 0 <= i < j < v.len() ==> addr_rank(#[trigger] v[i]) < addr_rank(#[trigger] v[j])
}

/// A list with one more element at the end holds exactly that element besides.
proof fn lemma_contains_push(v: Seq<Octets>, a: Octets, c: Octets)
    ensures
        v.push(a).contains(c) <==> (v.contains(c) || c == a),
{
    if v.push(a).contains(c) {
        let k = choose|k: int| 0 <= k < v.push(a).len() && v.push(a)[k] == c;
        if k < v.len() {
            assert(v[k] == c);
        }
    }
    if v.contains(c) {
        let k = choose|k: int| 0 <= k < v.len() && v[k] == c;
        assert(v.push(a)[k] == c);
    }
    if c == a {
        assert(v.push(a)[v.len() as int] == c);
    }
}

/// A list with one more element inserted holds exactly that element besides.
proof fn lemma_contains_insert(v: Seq<Octets>, j: int, a: Octets, c: Octets)
    requires
        0 <= j <= v.len(),
    ensures
        v.insert(j, a).contains(c) <==> (v.contains(c) || c == a),
{
    let w = v.insert(j, a);
    if w.contains(c) {
        let k = choose|k: int| 0 <= k < w.len() && w[k] == c;
        if k < j {
            assert(v[k] == c);
        } else if k > j {
            assert(v[k - 1] == c);
        }
    }
    if v.contains(c) {
        let k = choose|k: int| 0 <= k < v.len() && v[k] == c;
        if k < j {
            assert(w[k] == c);
        } else {
            assert(w[k + 1] == c);
        }
    }
    if c == a {
        assert(w[j] == c);
    }
}

/// Inserting an address at its place keeps the list ascending.
proof fn lemma_insert_ascending(v: Seq<Octets>, j: int, a: Octets)
    requires
        ranks_ascending(v),
        0 <= j <= v.len(),
        forall|i: int| 0 <= i < j ==> addr_rank(#[trigger] v[i]) < addr_rank(a),
        j < v.len() ==> addr_rank(a) < addr_rank(v[j]),
    ensures
        ranks_ascending(v.insert(j, a)),
{
    let w = v.insert(j, a);
    assert forall|x: int, y: int| 0 <= x < y < w.len() implies addr_rank(#[trigger] w[x]) < addr_rank(#[trigger] w[y]) by {
        if y < j {
            assert(w[x] == v[x] && w[y] == v[y]);
        } else if y == j {
            assert(w[x] == v[x]);
        } else if x < j {
            assert(w[x] == v[x] && w[y] == v[y - 1]);
            if y - 1 > j {
                assert(addr_rank(v[j]) < addr_rank(v[y - 1]));
            }
        } else if x == j {
            assert(w[y] == v[y - 1]);
            if y - 1 > j {
                assert(addr_rank(v[j]) < addr_rank(v[y - 1]));
            }
        } else {
            assert(w[x] == v[x - 1] && w[y] == v[y - 1]);
        }
    }
}

/// The place of `a` in an ascending list: after every address ranked below it.
fn rank_position(v: &Vec<Octets>, a: Octets) -> (j: usize)
    ensures
        j <= v@.len(),
        forall|i: int| 0 <= i < j ==> addr_rank(#[trigger] v@[i]) < addr_rank(a),
        j < v@.len() ==> addr_rank(v@[j as int]) >= addr_rank(a),
{
    let key: u32 = a.0 as u32 * 16777216 + a.1 as u32 * 65536 + a.2 as u32 * 256 + a.3 as u32;
    let mut j: usize = 0;
    while j < v.len()
        invariant
            j <= v.len(),
            key == addr_rank(a),
            forall|i: int| 0 <= i < j ==> addr_rank(#[trigger] v@[i]) < addr_rank(a),
        ensures
            j <= v.len(),
            forall|i: int| 0 <= i < j ==> addr_rank(#[trigger] v@[i]) < addr_rank(a),
            j < v.len() ==> addr_rank(v@[j as int]) >= addr_rank(a),
        decreases v.len() - j,
    {
        let b = v[j];
        let kb: u32 = b.0 as u32 * 16777216 + b.1 as u32 * 65536 + b.2 as u32 * 256 + b.3 as u32;
        if kb >= key {
            break;
        }
        j = j + 1;
    }
    j
}

/// The local addresses worth scanning around, each once, in ascending order: each listed
/// one is a LAN candidate among `addrs`, and every LAN candidate among them is listed.
pub fn lan_candidates(addrs: &[Octets]) -> (r: Vec<Octets>)
    ensures
        ranks_ascending(r@),
        forall|a: Octets| #[trigger] r@.contains(a) <==> (addrs@.contains(a) && lan_candidate(a)),
{
    let mut out: Vec<Octets> = Vec::new();
    let mut n: usize = 0;
    while n < addrs.len()
        invariant
            n <= addrs.len(),
            ranks_ascending(out@),
            forall|c: Octets| #[trigger] out@.contains(c) <==> (addrs@.take(n as int).contains(c) && lan_candidate(c)),
        decreases addrs.len() - n,
    {
        let a = addrs[n];
        let ghost before = out@;
        let ghost prev_addrs = addrs@.take(n as int);
        assert(addrs@.take(n + 1) =~= prev_addrs.push(a));
        let lan = (a.0 == 10 || (a.0 == 172 && 16 <= a.1 && a.1 <= 31) || (a.0 == 192 && a.1 == 168))
            && a.0 != 127;
        if lan {
            let j = rank_position(&out, a);
            let present = if j < out.len() {
                let b = out[j];
                b.0 == a.0 && b.1 == a.1 && b.2 == a.2 && b.3 == a.3
            } else {
                false
            };
            if !present {
                proof {
                    if j < before.len() {
                        lemma_rank_injective(before[j as int], a);
                    }
                    lemma_insert_ascending(before, j as int, a);
                }
                out.insert(j, a);
                proof {
                    assert forall|c: Octets| #[trigger] out@.contains(c) <==> (addrs@.take(n + 1).contains(c) && lan_candidate(c)) by {
                        lemma_contains_insert(before, j as int, a, c);
                        lemma_contains_push(prev_addrs, a, c);
                    }
                }
            } else {
                proof {
                    assert(before[j as int] == a);
                    assert forall|c: Octets| #[trigger] out@.contains(c) <==> (addrs@.take(n + 1).contains(c) && lan_candidate(c)) by {
                        lemma_contains_push(prev_addrs, a, c);
                        if c == a {
                            assert(before.contains(c));
                        }
                    }
                }
            }
        } else {
            proof {
                assert forall|c: Octets| #[trigger] out@.contains(c) <==> (addrs@.take(n + 1).contains(c) && lan_candidate(c)) by {
                    lemma_contains_push(prev_addrs, a, c);
                    assert(before.contains(c) <==> (prev_addrs.contains(c) && lan_candidate(c)));
                }
            }
        }
        n = n + 1;
    }
    assert(addrs@.take(addrs.len() as int) =~= addrs@);
    out
}

/// Different addresses have different places in the order.
proof fn lemma_rank_injective(a: Octets, b: Octets)
    ensures
        addr_rank(a) == addr_rank(b) ==> a == b,
{
}

} // verus!
