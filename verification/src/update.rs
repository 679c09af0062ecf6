//! Version comparison and the update-check decisions: parsing release
//! versions, deciding when a newer release exists, naming the platform's
//! release asset, and deciding what a cached update check calls for.

use vstd::prelude::*;

use crate::text::{
    all_digits, chars_of, dec_val, parse_u64_range, spec_split, split_char, str_contains, str_eq,
    seq_contains,
};

verus! {

/// How long a cached update check stays fresh, in seconds: one day.
pub const CHECK_INTERVAL_SECS: u64 = 86400;

/// The number a version segment denotes, when it is all digits and fits.
pub open spec fn seg_num(t: Seq<char>) -> Option<u64> {
    if t.len() >= 1 && all_digits(t) && dec_val(t) <= u64::MAX {
        Some(dec_val(t) as u64)
    } else {
        None
    }
}

/// The numeric segments of a version string, in order, unparseable segments
/// skipped.
pub open spec fn nums_of(segs: Seq<Seq<char>>) -> Seq<u64>
    decreases segs.len(),
{
    if segs.len() == 0 {
        Seq::empty()
    } else {
        let r = nums_of(segs.drop_last());
        match seg_num(segs.last()) {
            Some(n) => r.push(n),
            None => r,
        }
    }
}

/// The (major, minor, patch) triple a version string denotes: its first three
/// numeric dot-separated segments, zero where missing.
pub open spec fn spec_parse_version(s: Seq<char>) -> (u64, u64, u64) {
    let ns = nums_of(spec_split(s, '.'));
    (
        if ns.len() > 0 {
            ns[0]
        } else {
            0
        },
        if ns.len() > 1 {
            ns[1]
        } else {
            0
        },
        if ns.len() > 2 {
            ns[2]
        } else {
            0
        },
    )
}

/// Parses a version string into its (major, minor, patch) triple.
pub fn parse_version(v: &str) -> (r: (u64, u64, u64))
    ensures
        r == spec_parse_version(v@),
{
    let segs = split_char(v, '.');
    let mut ns: Vec<u64> = Vec::new();
    let mut i: usize = 0;
    while i < segs.len()
        invariant
            i <= segs@.len(),
            segs.deep_view() == spec_split(v@, '.'),
            ns@ == nums_of(spec_split(v@, '.').take(i as int)),
        decreases segs@.len() - i,
    {
        proof {
            assert(spec_split(v@, '.').take(i + 1).drop_last() =~= spec_split(v@, '.').take(
                i as int,
            ));
            assert(segs@[i as int]@ == spec_split(v@, '.')[i as int]);
        }
        let sv = chars_of(segs[i].as_str());
        proof {
            assert(sv@.subrange(0, sv@.len() as int) =~= sv@);
        }
        match parse_u64_range(&sv, 0, sv.len()) {
            Some(n) => ns.push(n),
            None => {},
        }
        i += 1;
    }
    proof {
        assert(spec_split(v@, '.').take(spec_split(v@, '.').len() as int) =~= spec_split(v@, '.'));
    }
    let major = if ns.len() > 0 {
        ns[0]
    } else {
        0
    };
    let minor = if ns.len() > 1 {
        ns[1]
    } else {
        0
    };
    let patch = if ns.len() > 2 {
        ns[2]
    } else {
        0
    };
    (major, minor, patch)
}

/// `latest` names a strictly newer release than `current`, comparing the two
/// version triples lexicographically.
pub open spec fn spec_is_newer(current: (u64, u64, u64), latest: (u64, u64, u64)) -> bool {
    latest.0 > current.0 || (latest.0 == current.0 && (latest.1 > current.1 || (latest.1
        == current.1 && latest.2 > current.2)))
}

/// Whether `latest` is a strictly newer version than `current`.
pub fn is_newer(current: &str, latest: &str) -> (r: bool)
    ensures
        r == spec_is_newer(spec_parse_version(current@), spec_parse_version(latest@)),
{
    let c = parse_version(current);
    let l = parse_version(latest);
    l.0 > c.0 || (l.0 == c.0 && (l.1 > c.1 || (l.1 == c.1 && l.2 > c.2)))
}

/// The release-asset name for a host, by its operating system and
/// architecture; hosts without a published asset get none.
pub fn platform_target(os: &str, arch: &str) -> (r: Option<String>)
    ensures
        match r {
            Some(t) => (os@ == "macos"@ && arch@ == "aarch64"@ && t@ == "darwin-aarch64"@) || (os@
                == "macos"@ && arch@ == "x86_64"@ && t@ == "darwin-x86_64"@) || (os@ == "linux"@
                && arch@ == "x86_64"@ && t@ == "linux-x86_64"@) || (os@ == "linux"@ && arch@
                == "aarch64"@ && t@ == "linux-aarch64"@),
            None => !((os@ == "macos"@ || os@ == "linux"@) && (arch@ == "aarch64"@ || arch@
                == "x86_64"@)),
        },
{
    if str_eq(os, "macos") && str_eq(arch, "aarch64") {
        Some("darwin-aarch64".to_owned())
    } else if str_eq(os, "macos") && str_eq(arch, "x86_64") {
        Some("darwin-x86_64".to_owned())
    } else if str_eq(os, "linux") && str_eq(arch, "x86_64") {
        Some("linux-x86_64".to_owned())
    } else if str_eq(os, "linux") && str_eq(arch, "aarch64") {
        Some("linux-aarch64".to_owned())
    } else {
        None
    }
}

/// A cached update check: the release it saw, and when.
#[derive(Debug)]
pub struct UpdateCache {
    pub latest_version: String,
    pub checked_at: u64,
}

/// What a finished command does about updates.
#[derive(Debug, Clone, PartialEq, Eq, Structural)]
pub enum UpdateHint {
    /// Tell the user the cached newer release exists.
    Announce,
    /// Say nothing: the cache is fresh and shows no newer release.
    Quiet,
    /// Say nothing now, and refresh the stale or missing cache in the
    /// background.
    Refresh,
}

/// Decides what to do about updates after a command, from the cached check
/// and the clock: announce a cached newer release; stay quiet while the cache
/// is fresh; otherwise refresh it in the background.
pub fn update_hint(current: &str, cache: &Option<UpdateCache>, now: u64) -> (r: UpdateHint)
    ensures
        r == match cache {
            Some(c) => if spec_is_newer(
                spec_parse_version(current@),
                spec_parse_version(c.latest_version@),
            ) {
                UpdateHint::Announce
            } else if now >= c.checked_at && now - c.checked_at >= CHECK_INTERVAL_SECS {
                UpdateHint::Refresh
            } else {
                UpdateHint::Quiet
            },
            None => UpdateHint::Refresh,
        },
{
    match cache {
        Some(c) => {
            if is_newer(current, c.latest_version.as_str()) {
                UpdateHint::Announce
            } else {
                let age = if now >= c.checked_at {
                    now - c.checked_at
                } else {
                    0
                };
                if age < CHECK_INTERVAL_SECS {
                    UpdateHint::Quiet
                } else {
                    UpdateHint::Refresh
                }
            }
        },
        None => UpdateHint::Refresh,
    }
}

/// How this executable was installed, judged from its own path.
#[derive(Debug, Clone, PartialEq, Eq, Structural)]
pub enum InstallMethod {
    /// Under a Homebrew prefix: the package manager updates it.
    Homebrew,
    /// Under cargo's bin directory: cargo updates it.
    Cargo,
    /// A plain binary: replaced in place by the self-updater.
    Binary,
}

/// Judges how the executable at `exe_path` was installed.
pub fn detect_install_method(exe_path: &str) -> (r: InstallMethod)
    ensures
        r == if seq_contains(exe_path@, "/Cellar/"@) || seq_contains(exe_path@, "/homebrew/"@) {
            InstallMethod::Homebrew
        } else if seq_contains(exe_path@, "/.cargo/bin/"@) {
            InstallMethod::Cargo
        } else {
            InstallMethod::Binary
        },
{
    if str_contains(exe_path, "/Cellar/") || str_contains(exe_path, "/homebrew/") {
        InstallMethod::Homebrew
    } else if str_contains(exe_path, "/.cargo/bin/") {
        InstallMethod::Cargo
    } else {
        InstallMethod::Binary
    }
}

} // verus!
