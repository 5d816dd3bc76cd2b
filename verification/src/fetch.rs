//! The icon fetcher's bookkeeping: the download address for a parsed
//! shortcut, the destination path for its icon, and the decision not to
//! fetch at all when the icon is already present. The HTTP request and
//! the file write themselves are I/O and stay with the caller.

use vstd::prelude::*;

use crate::parse::ParsedShortcut;

verus! {

/// The fixed host-and-path prefix every icon download is built on.
pub open spec fn url_prefix() -> Seq<char> {
    "https://cdn.cloudflare.steamstatic.com/steamcommunity/public/images/apps/"@
}

/// The download address for one shortcut: the fixed prefix, the key,
/// a slash, and the icon basename.
pub open spec fn icon_url(key: Seq<char>, icon: Seq<char>) -> Seq<char> {
    url_prefix() + key + "/"@ + icon
}

/// Build the download address for one shortcut's icon.
pub fn build_icon_url(key: &str, icon_filename: &str) -> (r: String)
    ensures
        r@ == icon_url(key@, icon_filename@),
{
    let r = String::from_str(
        "https://cdn.cloudflare.steamstatic.com/steamcommunity/public/images/apps/",
    ).concat(key).concat("/").concat(icon_filename);
    proof {
        assert(r@ =~= icon_url(key@, icon_filename@));
    }
    r
}

/// Destination for a downloaded icon: the configured directory, which
/// carries its trailing separator, followed by the basename.
pub fn destination_path(dir: &str, icon_filename: &str) -> (r: String)
    ensures
        r@ == dir@ + icon_filename@,
{
    String::from_str(dir).concat(icon_filename)
}

/// The download work one parsed shortcut calls for: where to fetch from
/// and where to write to.
pub struct DownloadPlan {
    pub url: String,
    pub destination: String,
}

/// Decide whether a shortcut's icon must be fetched. An icon already
/// present is left untouched: no download is planned for it, and what is
/// on disk stays as it is. Otherwise the plan names the address built
/// from the shortcut's fields and the destination under the configured
/// directory.
pub fn plan_download(shortcut: &ParsedShortcut, dir: &str, already_exists: bool) -> (r: Option<
    DownloadPlan,
>)
    ensures
        already_exists <==> r is None,
        r is Some ==> r->Some_0.url@ == icon_url(shortcut.key@, shortcut.icon_filename@)
            && r->Some_0.destination@ == dir@ + shortcut.icon_filename@,
{
    if already_exists {
        return None;
    }
    let url = build_icon_url(shortcut.key.as_str(), shortcut.icon_filename.as_str());
    let destination = destination_path(dir, shortcut.icon_filename.as_str());
    Some(DownloadPlan { url, destination })
}

} // verus!
