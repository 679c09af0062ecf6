//! Derivation of the names a tunnel goes by: the remote resource name with
//! the tool's prefix, the public hostname under a zone, and the zone lookups
//! the commands make.

use vstd::prelude::*;

use crate::config::{Account, ZoneConfig};
use crate::text::{
    chars_of, first_where, lemma_first_where_is, lemma_first_where_none, match_at, matches_at,
    seq_contains, seq_ends_with, seq_starts_with, str_contains, str_eq,
};

verus! {

/// The remote tunnel-resource name for a short tunnel name: the tool's prefix
/// in front of it.
pub fn tunnel_resource_name(name: &str) -> (r: String)
    ensures
        r@ == "ytunnel-"@ + name@,
{
    let mut r = "ytunnel-".to_owned();
    r.append(name);
    r
}

/// The public hostname of a tunnel: its short name as a subdomain of the
/// zone.
pub fn hostname_for(name: &str, zone_name: &str) -> (r: String)
    ensures
        r@ == name@ + "."@ + zone_name@,
{
    let mut r = name.to_owned();
    r.append(".");
    r.append(zone_name);
    r
}

/// A tunnel name without the tool's prefix, whether or not it carried one:
/// how a delete command accepts both forms.
pub fn strip_tool_prefix(name: &str) -> (r: String)
    ensures
        r@ == if seq_starts_with(name@, "ytunnel-"@) {
            name@.skip("ytunnel-"@.len() as int)
        } else {
            name@
        },
{
    let v = chars_of(name);
    let pv = chars_of("ytunnel-");
    if match_at(&v, &pv, 0) {
        let r = name.substring_char(pv.len(), v.len()).to_owned();
        proof {
            assert(name@.subrange(pv@.len() as int, name@.len() as int) =~= name@.skip(
                "ytunnel-"@.len() as int,
            ));
        }
        r
    } else {
        name.to_owned()
    }
}

/// The subdomain a requested name denotes under a zone: a full hostname
/// ending in the zone keeps only the part before it; anything else is taken
/// as the subdomain itself.
pub fn subdomain_of(name: &str, zone_name: &str) -> (r: String)
    ensures
        r@ == if seq_contains(name@, "."@) && seq_ends_with(name@, "."@ + zone_name@) && name@.len()
            > 1 + zone_name@.len() {
            name@.take(name@.len() - (1 + zone_name@.len()))
        } else {
            name@
        },
{
    if str_contains(name, ".") {
        let mut suffix = ".".to_owned();
        suffix.append(zone_name);
        let v = chars_of(name);
        let sv = chars_of(suffix.as_str());
        let fits = sv.len() < v.len();
        let matched = if fits {
            match_at(&v, &sv, v.len() - sv.len())
        } else {
            false
        };
        proof {
            reveal_strlit(".");
            assert(sv@ == "."@ + zone_name@);
            assert(sv@.len() == 1 + zone_name@.len());
        }
        if matched {
            let r = name.substring_char(0, v.len() - sv.len()).to_owned();
            proof {
                assert(seq_ends_with(name@, "."@ + zone_name@));
                assert(name@.subrange(0, name@.len() - (1 + zone_name@.len())) =~= name@.take(
                    name@.len() - (1 + zone_name@.len()),
                ));
            }
            r
        } else {
            proof {
                if seq_ends_with(name@, "."@ + zone_name@) && name@.len() > 1 + zone_name@.len() {
                    assert(matches_at(v@, sv@, v@.len() - sv@.len()));
                    assert(false);
                }
            }
            name.to_owned()
        }
    } else {
        name.to_owned()
    }
}

/// `z` is the zone named `name`.
pub open spec fn zone_named(name: Seq<char>) -> spec_fn(ZoneConfig) -> bool {
    |z: ZoneConfig| z.name@ == name
}

/// The zone a command works in: the named zone out of the account's list, or
/// the account's default zone when no name is given. A name that matches no
/// zone of the account yields nothing, and the command reports it.
pub fn resolve_zone(account: &Account, zone: Option<&str>) -> (r: Option<(String, String)>)
    ensures
        match zone {
            Some(z) => match r {
                Some((id, name)) => {
                    let idx = first_where(account.zones@, zone_named(z@));
                    idx is Some && id == account.zones@[idx->0].id && name == account.zones@[
                        idx->0
                    ].name
                },
                None => first_where(account.zones@, zone_named(z@)) is None,
            },
            None => r matches Some((id, name)) && id == account.default_zone_id && name
                == account.default_zone_name,
        },
{
    match zone {
        Some(z) => {
            let mut i: usize = 0;
            while i < account.zones.len()
                invariant
                    i <= account.zones@.len(),
                    zone == Some(z),
                    forall|j: int| 0 <= j < i ==> !zone_named(z@)(#[trigger] account.zones@[j]),
                decreases account.zones@.len() - i,
            {
                if str_eq(account.zones[i].name.as_str(), z) {
                    proof {
                        assert(zone_named(z@)(account.zones@[i as int]));
                        lemma_first_where_is(account.zones@, zone_named(z@), i as int);
                    }
                    return Some((account.zones[i].id.clone(), account.zones[i].name.clone()));
                }
                proof {
                    assert(!zone_named(z@)(account.zones@[i as int]));
                }
                i += 1;
            }
            proof {
                lemma_first_where_none(account.zones@, zone_named(z@));
            }
            None
        },
        None => Some((account.default_zone_id.clone(), account.default_zone_name.clone())),
    }
}

/// The account name daemon teardown uses for a ledger record during a full
/// reset: the record's own account, or the selected account for records
/// written before accounts existed.
pub fn fallback_account(tunnel_account: &str, selected: Option<&str>) -> (r: String)
    ensures
        r@ == if tunnel_account@.len() > 0 {
            tunnel_account@
        } else {
            match selected {
                Some(s) => s@,
                None => Seq::<char>::empty(),
            }
        },
{
    if !tunnel_account.is_empty() {
        tunnel_account.to_owned()
    } else {
        match selected {
            Some(s) => s.to_owned(),
            None => String::new(),
        }
    }
}

} // verus!
