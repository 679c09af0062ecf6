//! The control-plane data model and the pure halves of its operations:
//! flattening zone listings, locating live tunnel resources, planning the
//! idempotent DNS upsert, composing error messages, and minting tunnel
//! secrets.

use vstd::prelude::*;

use crate::text::{
    first_where, lemma_first_where_is, lemma_first_where_none, str_eq,
};

verus! {

/// A DNS zone as the control plane lists it.
#[derive(Debug)]
pub struct Zone {
    pub id: String,
    pub name: String,
    pub account: Account,
}

/// The account a zone belongs to, as the control plane lists it.
#[derive(Debug)]
pub struct Account {
    pub id: String,
}

/// A zone flattened for storage: its account id pulled up beside it.
#[derive(Debug)]
pub struct FlatZone {
    pub id: String,
    pub name: String,
    pub account_id: String,
}

impl Zone {
    /// Flattens the zone for storage.
    pub fn into_flat(self) -> (r: FlatZone)
        ensures
            r.id == self.id,
            r.name == self.name,
            r.account_id == self.account.id,
    {
        FlatZone { id: self.id, name: self.name, account_id: self.account.id }
    }
}

/// A tunnel resource as the control plane lists it.
#[derive(Debug)]
pub struct Tunnel {
    /// The remote tunnel-resource id.
    pub id: String,
    /// The remote tunnel name, carrying this tool's prefix when it made it.
    pub name: String,
    /// When the resource was soft-deleted, if it was.
    pub deleted_at: Option<String>,
}

impl Clone for Tunnel {
    fn clone(&self) -> (r: Self)
        ensures
            r.id == self.id,
            r.name == self.name,
            r.deleted_at == self.deleted_at,
    {
        Tunnel {
            id: self.id.clone(),
            name: self.name.clone(),
            deleted_at: match &self.deleted_at {
                Some(d) => Some(d.clone()),
                None => None,
            },
        }
    }
}

impl Tunnel {
    /// Path of this tunnel's secret-credential file under the configuration
    /// directory: named by the remote tunnel-resource id.
    pub fn credentials_path(&self, config_dir: &str) -> (r: String)
        ensures
            r@ == config_dir@ + "/"@ + self.id@ + ".json"@,
    {
        let mut r = config_dir.to_owned();
        r.append("/");
        r.append(self.id.as_str());
        r.append(".json");
        r
    }
}

/// A freshly created tunnel together with where its credentials were written.
#[derive(Debug)]
pub struct TunnelWithCredentials {
    pub tunnel: Tunnel,
    pub credentials_path: String,
}

/// A DNS record as the control plane lists it.
#[derive(Debug)]
pub struct DnsRecord {
    pub id: String,
    pub name: String,
    pub content: String,
    pub record_type: String,
}

/// One error out of a control-plane response.
#[derive(Debug)]
pub struct ApiError {
    pub message: String,
}

/// The error messages of a response, joined for display.
pub open spec fn spec_format_errors(messages: Seq<Seq<char>>) -> Seq<char>
    decreases messages.len(),
{
    if messages.len() == 0 {
        Seq::empty()
    } else if messages.len() == 1 {
        messages[0]
    } else {
        spec_format_errors(messages.drop_last()) + ", "@ + messages.last()
    }
}

/// Joins a response's error messages with commas for display.
pub fn format_errors(errors: &Vec<ApiError>) -> (r: String)
    ensures
        r@ == spec_format_errors(Seq::new(errors@.len(), |i: int| errors@[i].message@)),
{
    let ghost msgs = Seq::new(errors@.len(), |i: int| errors@[i].message@);
    let mut r = String::new();
    if errors.len() == 0 {
        proof {
            assert(r@ =~= spec_format_errors(msgs));
        }
        return r;
    }
    r.append(errors[0].message.as_str());
    proof {
        assert(msgs.take(1) =~= seq![msgs[0]]);
        assert(r@ =~= spec_format_errors(msgs.take(1)));
    }
    let mut i: usize = 1;
    while i < errors.len()
        invariant
            1 <= i <= errors@.len(),
            msgs == Seq::new(errors@.len(), |j: int| errors@[j].message@),
            r@ == spec_format_errors(msgs.take(i as int)),
        decreases errors@.len() - i,
    {
        r.append(", ");
        r.append(errors[i].message.as_str());
        i += 1;
        proof {
            assert(msgs.take(i as int).drop_last() =~= msgs.take(i - 1));
            assert(msgs.take(i as int).last() == msgs[i - 1]);
            assert(r@ =~= spec_format_errors(msgs.take(i as int)));
        }
    }
    proof {
        assert(msgs.take(msgs.len() as int) =~= msgs);
    }
    r
}

/// `t` is a live (not soft-deleted) tunnel of the given name.
pub open spec fn live_named(name: Seq<char>) -> spec_fn(Tunnel) -> bool {
    |t: Tunnel| t.name@ == name && t.deleted_at is None
}

/// The first live tunnel of the given name in a control-plane listing, the
/// way a lookup by name picks it.
pub fn find_live_tunnel<'a>(tunnels: &'a Vec<Tunnel>, name: &str) -> (r: Option<&'a Tunnel>)
    ensures
        match r {
            Some(t) => {
                let idx = first_where(tunnels@, live_named(name@));
                idx is Some && *t == tunnels@[idx->0]
            },
            None => first_where(tunnels@, live_named(name@)) is None,
        },
{
    let mut i: usize = 0;
    while i < tunnels.len()
        invariant
            i <= tunnels@.len(),
            forall|j: int| 0 <= j < i ==> !live_named(name@)(#[trigger] tunnels@[j]),
        decreases tunnels@.len() - i,
    {
        let live = match &tunnels[i].deleted_at {
            Some(_) => false,
            None => true,
        };
        if live && str_eq(tunnels[i].name.as_str(), name) {
            proof {
                assert(live_named(name@)(tunnels@[i as int]));
                lemma_first_where_is(tunnels@, live_named(name@), i as int);
            }
            return Some(&tunnels[i]);
        }
        proof {
            assert(!live_named(name@)(tunnels@[i as int]));
        }
        i += 1;
    }
    proof {
        lemma_first_where_none(tunnels@, live_named(name@));
    }
    None
}

/// The CNAME content a tunnel's DNS record must carry.
pub fn tunnel_cname(tunnel_id: &str) -> (r: String)
    ensures
        r@ == tunnel_id@ + ".cfargotunnel.com"@,
{
    let mut r = tunnel_id.to_owned();
    r.append(".cfargotunnel.com");
    r
}

/// The step an idempotent DNS upsert takes.
#[derive(Debug)]
pub enum DnsPlan {
    /// The record already points at the tunnel: do nothing.
    AlreadyCorrect,
    /// Rewrite the existing record with this id.
    Update(String),
    /// No record exists: create one.
    Create,
}

/// Plans the idempotent DNS upsert: given the existing record for the
/// hostname, if any, decide whether to leave it, rewrite it, or create one.
pub fn plan_dns_upsert(existing: Option<DnsRecord>, cname: &str) -> (r: DnsPlan)
    ensures
        match existing {
            Some(rec) => if rec.content@ == cname@ {
                r is AlreadyCorrect
            } else {
                r matches DnsPlan::Update(id) && id == rec.id
            },
            None => r is Create,
        },
{
    match existing {
        Some(rec) => {
            if str_eq(rec.content.as_str(), cname) {
                DnsPlan::AlreadyCorrect
            } else {
                DnsPlan::Update(rec.id)
            }
        },
        None => DnsPlan::Create,
    }
}

/// The base64 alphabet, in value order.
pub open spec fn b64_alphabet() -> Seq<char> {
    "ABCDEFGHIJKLMNOPQRSTUVWXYZabcdefghijklmnopqrstuvwxyz0123456789+/"@
}

/// The base64 encoding of a full three-byte group.
pub open spec fn b64_chunk3(b0: u8, b1: u8, b2: u8) -> Seq<char> {
    seq![
        b64_alphabet()[b0 as int / 4],
        b64_alphabet()[(b0 as int % 4) * 16 + b1 as int / 16],
        b64_alphabet()[(b1 as int % 16) * 4 + b2 as int / 64],
        b64_alphabet()[b2 as int % 64],
    ]
}

/// The base64 encoding of a trailing two-byte group, padded.
pub open spec fn b64_chunk2(b0: u8, b1: u8) -> Seq<char> {
    seq![
        b64_alphabet()[b0 as int / 4],
        b64_alphabet()[(b0 as int % 4) * 16 + b1 as int / 16],
        b64_alphabet()[(b1 as int % 16) * 4],
        '=',
    ]
}

/// The base64 encoding of a trailing one-byte group, padded.
pub open spec fn b64_chunk1(b0: u8) -> Seq<char> {
    seq![b64_alphabet()[b0 as int / 4], b64_alphabet()[(b0 as int % 4) * 16], '=', '=']
}

/// The base64 encoding of a byte sequence, three bytes to four characters,
/// the final group padded with `=`.
pub open spec fn spec_base64(data: Seq<u8>) -> Seq<char>
    decreases data.len(),
{
    if data.len() == 0 {
        Seq::empty()
    } else if data.len() >= 3 {
        b64_chunk3(data[0], data[1], data[2]) + spec_base64(data.skip(3))
    } else if data.len() == 2 {
        b64_chunk2(data[0], data[1])
    } else {
        b64_chunk1(data[0])
    }
}

/// Base64 yields four characters for every started group of three bytes.
pub proof fn lemma_base64_len(data: Seq<u8>)
    ensures
        spec_base64(data).len() == 4 * ((data.len() + 2) / 3),
    decreases data.len(),
{
    if data.len() >= 3 {
        lemma_base64_len(data.skip(3));
    }
}

/// Encodes bytes as base64.
pub fn base64_encode(data: &Vec<u8>) -> (r: String)
    ensures
        r@ == spec_base64(data@),
{
    let alpha: &str = "ABCDEFGHIJKLMNOPQRSTUVWXYZabcdefghijklmnopqrstuvwxyz0123456789+/";
    proof {
        reveal_strlit("ABCDEFGHIJKLMNOPQRSTUVWXYZabcdefghijklmnopqrstuvwxyz0123456789+/");
        assert(alpha.is_ascii());
        assert(alpha@.len() == 64);
    }
    let mut r = String::new();
    let mut i: usize = 0;
    proof {
        assert(data@.skip(0) =~= data@);
        assert(Seq::<char>::empty() + spec_base64(data@) =~= spec_base64(data@));
    }
    while i < data.len() && data.len() - i >= 3
        invariant
            i <= data@.len(),
            alpha@ == b64_alphabet(),
            alpha.is_ascii(),
            alpha@.len() == 64,
            spec_base64(data@) == r@ + spec_base64(data@.skip(i as int)),
        decreases data@.len() - i,
    {
        let b0 = data[i];
        let b1 = data[i + 1];
        let b2 = data[i + 2];
        let ghost rest = data@.skip(i as int);
        r.append(alpha.substring_ascii((b0 / 4) as usize, (b0 / 4) as usize + 1));
        r.append(
            alpha.substring_ascii(
                ((b0 % 4) * 16 + b1 / 16) as usize,
                ((b0 % 4) * 16 + b1 / 16) as usize + 1,
            ),
        );
        r.append(
            alpha.substring_ascii(
                ((b1 % 16) * 4 + b2 / 64) as usize,
                ((b1 % 16) * 4 + b2 / 64) as usize + 1,
            ),
        );
        r.append(alpha.substring_ascii((b2 % 64) as usize, (b2 % 64) as usize + 1));
        i += 3;
        proof {
            assert(rest[0] == b0 && rest[1] == b1 && rest[2] == b2);
            assert(rest.skip(3) =~= data@.skip(i as int));
            assert(spec_base64(rest) == b64_chunk3(b0, b1, b2) + spec_base64(
                data@.skip(i as int),
            ));
            assert(spec_base64(data@) =~= r@ + spec_base64(data@.skip(i as int)));
        }
    }
    let ghost rest = data@.skip(i as int);
    if data.len() - i == 2 {
        let b0 = data[i];
        let b1 = data[i + 1];
        r.append(alpha.substring_ascii((b0 / 4) as usize, (b0 / 4) as usize + 1));
        r.append(
            alpha.substring_ascii(
                ((b0 % 4) * 16 + b1 / 16) as usize,
                ((b0 % 4) * 16 + b1 / 16) as usize + 1,
            ),
        );
        r.append(alpha.substring_ascii(((b1 % 16) * 4) as usize, ((b1 % 16) * 4) as usize + 1));
        r.append("=");
        proof {
            reveal_strlit("=");
            assert(rest[0] == b0 && rest[1] == b1);
            assert(spec_base64(rest) == b64_chunk2(b0, b1));
            assert(r@ =~= spec_base64(data@));
        }
    } else if data.len() - i == 1 {
        let b0 = data[i];
        r.append(alpha.substring_ascii((b0 / 4) as usize, (b0 / 4) as usize + 1));
        r.append(alpha.substring_ascii(((b0 % 4) * 16) as usize, ((b0 % 4) * 16) as usize + 1));
        r.append("==");
        proof {
            reveal_strlit("==");
            assert(rest[0] == b0);
            assert(spec_base64(rest) == b64_chunk1(b0));
            assert("=="@ =~= seq!['=', '=']);
            assert(r@ =~= spec_base64(data@));
        }
    } else {
        proof {
            assert(rest.len() == 0);
            assert(r@ =~= spec_base64(data@));
        }
    }
    r
}

/// Relies on rand::Rng::fill on a byte slice: fills it in place from the
/// thread's generator, leaving its length unchanged.
#[verifier::external_body]
fn random_bytes_32() -> (r: Vec<u8>)
    ensures
        r@.len() == 32,
{
    let mut buf = vec![0u8; 32];
    rand::Rng::fill(&mut rand::rng(), buf.as_mut_slice());
    buf
}

/// Mints a tunnel secret: 32 random bytes, base64-encoded to 44 characters.
pub fn new_tunnel_secret() -> (r: String)
    ensures
        exists|bytes: Seq<u8>| bytes.len() == 32 && r@ == spec_base64(bytes),
        r@.len() == 44,
{
    let bytes = random_bytes_32();
    let r = base64_encode(&bytes);
    proof {
        lemma_base64_len(bytes@);
    }
    r
}

} // verus!
