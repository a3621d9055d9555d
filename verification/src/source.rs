//! Where an installation takes the system from.

use vstd::prelude::*;

verus! {

/// An install source other than the default build from source.
#[derive(Debug, PartialEq, Eq)]
pub enum InstallSource {
    /// A signed ostree image from a channel.
    OstreeImage { channel_url: String, branch: String },
}

/// Build the install source from CLI flags: a signed ostree channel when one is
/// given, otherwise none (the default source build).
pub fn ostree_install_source(ostree_channel: &Option<String>, ostree_ref: &str) -> (r: Option<
    InstallSource,
>)
    ensures
        match (r, *ostree_channel) {
            (Some(InstallSource::OstreeImage { channel_url, branch }), Some(url)) => {
                &&& channel_url@ == url@
                &&& branch@ == ostree_ref@
            },
            (None, None) => true,
            _ => false,
        },
{
    match ostree_channel {
        Some(url) => Some(
            InstallSource::OstreeImage {
                channel_url: url.clone(),
                branch: ostree_ref.to_string(),
            },
        ),
        None => None,
    }
}

} // verus!
