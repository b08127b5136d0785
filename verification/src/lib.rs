//! Serialized invocation of the system firewall administration tools
//! (`iptables` / `ip6tables`).
//!
//! The crate probes the tool's version once, derives which serialization
//! features it offers, builds the argument vectors for the rule and chain
//! operations, and coordinates each launch so that concurrent callers never
//! run the tool at the same time: either through the tool's own wait flag,
//! or through an advisory file lock with busy retry.

use vstd::prelude::*;

pub mod coord;
pub mod error;
pub mod text;
pub mod tool;
pub mod version;

use tool::{IPTables, ToolKind};
use version::{spec_supports_check, spec_supports_wait, ProbeError};

verus! {

/// Builds an [`IPTables`] handle from the text that the tool printed for a
/// version query.  Chooses the IPv6 tool when `is_ipv6` is set, parses the
/// `v<major>.<minor>.<patch>` triple out of `probe_output`, and derives the
/// two capability flags from it.  Fails exactly when no version triple can be
/// read out of the text.
pub fn new(is_ipv6: bool, probe_output: &str) -> (r: Result<IPTables, ProbeError>)
    ensures
        match r {
            Ok(h) => {
                &&& h.cmd == (if is_ipv6 {
                    ToolKind::IPv6
                } else {
                    ToolKind::IPv4
                })
                &&& exists|i: int|
                    {
                        &&& #[trigger] version::is_first_match(probe_output@, i)
                        &&& version::match_fits(probe_output@, i)
                        &&& h.has_check == spec_supports_check(
                            version::spec_version_at(probe_output@, i),
                        )
                        &&& h.has_wait == spec_supports_wait(
                            version::spec_version_at(probe_output@, i),
                        )
                    }
            },
            Err(e) => version::spec_parse_failure(probe_output@, e),
        },
{
    let v = version::parse_version(probe_output)?;
    Ok(IPTables {
        cmd: if is_ipv6 {
            ToolKind::IPv6
        } else {
            ToolKind::IPv4
        },
        has_check: version::supports_check(&v),
        has_wait: version::supports_wait(&v),
    })
}

} // verus!
