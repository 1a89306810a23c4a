//! The request and response shapes of the service surface, the shared
//! application state, and the two checks the handlers perform
//! themselves: link allow-listing and upstream address assembly.

use vstd::prelude::*;
use vstd::string::StrSliceExecFns;

use crate::resolver::Resolver;
use crate::visits::VisitStore;

verus! {

/// Query of the hash endpoints: both fields optional, and both
/// required by the write-triggering endpoint.
pub struct GetMd5Request {
    pub link: Option<String>,
    pub filename: Option<String>,
}

/// Answer of a successful hash lookup.
pub struct GetMd5Response {
    pub hash: String,
}

/// Answer of the visit endpoint: the updated count, or `-1` when the
/// counter store rejected the write.
pub struct GetVisitResponse {
    pub visits: i64,
}

/// Query of the upstream comment pass-through.
pub struct ProxyDandanPlayCommentRequest {
    pub episode_id: Option<String>,
}

/// Body of the upstream match pass-through, forwarded verbatim.
pub struct ProxyDandanPlayMatchRequest {
    pub file_name: Option<String>,
    pub file_size: Option<i64>,
    pub file_hash: Option<String>,
    pub match_mode: Option<String>,
}

/// State shared by every handler: configuration, the resolution
/// workflow, and the visit counter store.
pub struct AppState {
    pub dbpath: String,
    pub allowed_hosts: Vec<String>,
    pub resolver: Resolver,
    pub visits: VisitStore,
    pub app_id: String,
    pub app_secret: String,
}

impl AppState {
    pub open spec fn wf(&self) -> bool {
        self.resolver.wf() && self.visits.wf()
    }

    /// Fresh state around the given configuration: an empty resolver
    /// and an empty counter store.
    pub fn new(dbpath: String, allowed_hosts: Vec<String>, app_id: String, app_secret: String)
        -> (r: AppState)
        ensures
            r.wf(),
            r.dbpath == dbpath,
            r.allowed_hosts == allowed_hosts,
            r.app_id == app_id,
            r.app_secret == app_secret,
            r.resolver@.hashes == Map::<Seq<char>, Seq<char>>::empty(),
            r.resolver@.in_flight == Set::<Seq<char>>::empty(),
            r.visits@ == Map::<Seq<char>, int>::empty(),
    {
        AppState {
            dbpath,
            allowed_hosts,
            resolver: Resolver::new(),
            visits: VisitStore::new(),
            app_id,
            app_secret,
        }
    }
}

/// Whether the candidate is a character-for-character prefix of the
/// link.
fn starts_with_name(link: &String, prefix: &String) -> (r: bool)
    ensures
        r == prefix@.is_prefix_of(link@),
{
    let n = prefix.as_str().unicode_len();
    let m = link.as_str().unicode_len();
    if n > m {
        return false;
    }
    let mut i: usize = 0;
    while i < n
        invariant
            i <= n,
            n == prefix@.len(),
            m == link@.len(),
            n <= m,
            forall|j: int| 0 <= j < i ==> link@[j] == prefix@[j],
        decreases n - i,
    {
        if link.as_str().get_char(i) != prefix.as_str().get_char(i) {
            proof {
                assert(link@.subrange(0, n as int)[i as int] != prefix@[i as int]);
            }
            return false;
        }
        i = i + 1;
    }
    proof {
        assert(prefix@ =~= link@.subrange(0, n as int));
    }
    true
}

/// Whether some allow-listed prefix opens the link; every
/// write-triggering request must pass this before a fetch may be
/// ordered.
pub fn link_allowed(link: &String, allowed: &Vec<String>) -> (r: bool)
    ensures
        r == exists|i: int| 0 <= i < allowed@.len() && (#[trigger] allowed@[i]@).is_prefix_of(
            link@,
        ),
{
    let mut i: usize = 0;
    while i < allowed.len()
        invariant
            i <= allowed@.len(),
            forall|j: int| 0 <= j < i ==> !(#[trigger] allowed@[j]@).is_prefix_of(link@),
        decreases allowed@.len() - i,
    {
        if starts_with_name(link, &allowed[i]) {
            return true;
        }
        i = i + 1;
    }
    false
}

/// The upstream address of the comment pass-through for one episode.
pub fn comment_uri(episode_id: &String) -> (r: String)
    ensures
        r@ == "https://api.dandanplay.net/api/v2/comment/"@ + episode_id@
            + "?withRelated=true&chConvert=0"@,
{
    let mut r = String::from_str("https://api.dandanplay.net/api/v2/comment/");
    r.append(episode_id.as_str());
    r.append("?withRelated=true&chConvert=0");
    r
}

/// The upstream address of the match pass-through.
pub fn match_uri() -> (r: String)
    ensures
        r@ == "https://api.dandanplay.net/api/v2/match"@,
{
    String::from_str("https://api.dandanplay.net/api/v2/match")
}

} // verus!
