//! Best-effort readiness of services and actions from the broker console's listing.
//!
//! The console lists `{name, workers}` rows under `GET {console}/api/v1/services|actions`;
//! a name is ready when its row reports `workers > 0`. The HTTP fetch is done by the caller;
//! this module resolves the URL, matches names and decides.
use vstd::prelude::*;
use crate::rpc_status::strip_or_keep;
use crate::text::{is_char, str_eq, strip_prefix, trim, trim_end_by, trim_end_char, trim_ws};

verus! {

/// Default console base when none is configured.
pub const DEFAULT_CONSOLE_URL: &'static str = "http://127.0.0.1:15570";

/// Interval between two readiness polls, in milliseconds.
pub const READY_POLL_MS: u64 = 50;

/// What is being waited for.
#[derive(Debug, Clone, Copy, PartialEq, Eq, Structural)]
pub enum ReadyKind {
    Service,
    Action,
}

impl ReadyKind {
    /// Console path that lists this kind.
    pub fn path(self) -> (r: &'static str)
        ensures
            r@ == match self {
                ReadyKind::Service => "/api/v1/services"@,
                ReadyKind::Action => "/api/v1/actions"@,
            },
    {
        match self {
            ReadyKind::Service => "/api/v1/services",
            ReadyKind::Action => "/api/v1/actions",
        }
    }

    /// Key of the list in the console's JSON envelope.
    pub fn list_key(self) -> (r: &'static str)
        ensures
            r@ == match self {
                ReadyKind::Service => "services"@,
                ReadyKind::Action => "actions"@,
            },
    {
        match self {
            ReadyKind::Service => "services",
            ReadyKind::Action => "actions",
        }
    }
}

/// One row of the console listing.
#[derive(Debug, Clone)]
pub struct NamedWorkers {
    pub name: String,
    pub workers: u64,
}

/// Base URL without trailing slashes.
pub open spec fn spec_normalize_api_base(raw: Seq<char>) -> Seq<char> {
    trim_end_by(raw, is_char('/'))
}

/// API base URL with trailing `/` removed.
pub fn normalize_api_base(raw: &str) -> (r: String)
    ensures
        r@ == spec_normalize_api_base(raw@),
{
    trim_end_char(raw, '/').to_owned()
}

/// Console base: the configured URL trimmed of whitespace, or the default when that is
/// absent or blank; then without trailing `/`.
pub open spec fn spec_resolve_console_url(console_url: Option<Seq<char>>) -> Seq<char> {
    let raw = match console_url {
        Some(u) => if trim_ws(u).len() > 0 {
            trim_ws(u)
        } else {
            DEFAULT_CONSOLE_URL@
        },
        None => DEFAULT_CONSOLE_URL@,
    };
    spec_normalize_api_base(raw)
}

pub open spec fn opt_str_view(o: Option<&str>) -> Option<Seq<char>> {
    match o {
        Some(s) => Some(s@),
        None => None,
    }
}

/// Resolve the console base URL (trimmed, default when unset, no trailing `/`).
pub fn resolve_console_url(console_url: Option<&str>) -> (r: String)
    ensures
        r@ == spec_resolve_console_url(opt_str_view(console_url)),
{
    let raw = match console_url {
        Some(u) => {
            let t = trim(u);
            if t.unicode_len() > 0 {
                t
            } else {
                DEFAULT_CONSOLE_URL
            }
        },
        None => DEFAULT_CONSOLE_URL,
    };
    normalize_api_base(raw)
}

/// Two names denote the same endpoint, ignoring one leading `/` on either.
pub open spec fn spec_names_match(a: Seq<char>, b: Seq<char>) -> bool {
    a == b || strip_or_keep(a, "/"@) == strip_or_keep(b, "/"@)
}

/// Names equal, or equal once a leading `/` is stripped from each.
pub fn names_match(a: &str, b: &str) -> (r: bool)
    ensures
        r == spec_names_match(a@, b@),
{
    if str_eq(a, b) {
        return true;
    }
    let a2 = match strip_prefix(a, "/") {
        Some(rest) => rest,
        None => a,
    };
    let b2 = match strip_prefix(b, "/") {
        Some(rest) => rest,
        None => b,
    };
    str_eq(a2, b2)
}

/// Worker count of the first row whose name matches `name`.
pub open spec fn spec_find_workers(entries: Seq<NamedWorkers>, name: Seq<char>) -> Option<u64>
    decreases entries.len(),
{
    if entries.len() == 0 {
        None
    } else if spec_names_match(entries[0].name@, name) {
        Some(entries[0].workers)
    } else {
        spec_find_workers(entries.drop_first(), name)
    }
}

proof fn lemma_find_workers_step(entries: Seq<NamedWorkers>, name: Seq<char>, i: int)
    requires
        0 <= i < entries.len(),
        forall|j: int| 0 <= j < i ==> !spec_names_match(#[trigger] entries[j].name@, name),
    ensures
        spec_find_workers(entries, name) == spec_find_workers(entries.subrange(i, entries.len() as int), name),
    decreases i,
{
    if i > 0 {
        let t = entries.drop_first();
        assert forall|j: int| 0 <= j < i - 1 implies !spec_names_match(#[trigger] t[j].name@, name) by {
            assert(t[j] == entries[j + 1]);
        }
        lemma_find_workers_step(t, name, i - 1);
        assert(t.subrange(i - 1, t.len() as int) =~= entries.subrange(i, entries.len() as int));
    } else {
        assert(entries.subrange(0, entries.len() as int) =~= entries);
    }
}

proof fn lemma_find_workers_none(entries: Seq<NamedWorkers>, name: Seq<char>)
    requires
        forall|j: int| 0 <= j < entries.len() ==> !spec_names_match(#[trigger] entries[j].name@, name),
    ensures
        spec_find_workers(entries, name) is None,
    decreases entries.len(),
{
    if entries.len() > 0 {
        let t = entries.drop_first();
        assert forall|j: int| 0 <= j < t.len() implies !spec_names_match(#[trigger] t[j].name@, name) by {
            assert(t[j] == entries[j + 1]);
        }
        assert(!spec_names_match(entries[0].name@, name));
        lemma_find_workers_none(t, name);
    }
}

/// Worker count the listing reports for `name` (first matching row), if listed.
pub fn find_workers(entries: &Vec<NamedWorkers>, name: &str) -> (r: Option<u64>)
    ensures
        r == spec_find_workers(entries@, name@),
{
    let mut i: usize = 0;
    while i < entries.len()
        invariant
            i <= entries@.len(),
            forall|j: int| 0 <= j < i ==> !spec_names_match(#[trigger] entries@[j].name@, name@),
        decreases entries@.len() - i,
    {
        if names_match(entries[i].name.as_str(), name) {
            proof {
                lemma_find_workers_step(entries@, name@, i as int);
            }
            return Some(entries[i].workers);
        }
        i = i + 1;
    }
    proof {
        lemma_find_workers_none(entries@, name@);
    }
    None
}

/// Ready when the fetched listing reports `workers > 0` for `name`; a failed fetch (`None`)
/// or an unlisted name is not ready.
pub open spec fn spec_is_ready(listing: Option<Seq<NamedWorkers>>, name: Seq<char>) -> bool {
    match listing {
        Some(entries) => match spec_find_workers(entries, name) {
            Some(w) => w > 0,
            None => false,
        },
        None => false,
    }
}

/// Readiness of `name` given the console listing (or `None` when it could not be fetched).
pub fn is_ready(listing: Option<&Vec<NamedWorkers>>, name: &str) -> (r: bool)
    ensures
        r == spec_is_ready(
            match listing {
                Some(v) => Some(v@),
                None => None,
            },
            name@,
        ),
{
    match listing {
        Some(entries) => match find_workers(entries, name) {
            Some(w) => w > 0,
            None => false,
        },
        None => false,
    }
}

/// Next step of a readiness wait.
#[derive(Debug, Clone, Copy, PartialEq, Eq, Structural)]
pub enum WaitStep {
    /// Stop waiting with this answer.
    Finish(bool),
    /// Sleep this many milliseconds, then poll again.
    Sleep(u64),
}

/// One decision of `wait_until_ready`: done when ready; `false` once the deadline (if any)
/// has passed; otherwise sleep the poll interval, cut short at the deadline.
pub fn ready_wait_step(ready: bool, now_ms: u64, deadline_ms: Option<u64>) -> (s: WaitStep)
    ensures
        ready ==> s == WaitStep::Finish(true),
        !ready ==> match deadline_ms {
            Some(d) => if now_ms >= d {
                s == WaitStep::Finish(false)
            } else {
                s == WaitStep::Sleep(if d - now_ms < READY_POLL_MS { (d - now_ms) as u64 } else { READY_POLL_MS })
            },
            None => s == WaitStep::Sleep(READY_POLL_MS),
        },
        s matches WaitStep::Sleep(ms) ==> 0 < ms <= READY_POLL_MS,
{
    if ready {
        return WaitStep::Finish(true);
    }
    match deadline_ms {
        Some(d) => {
            if now_ms >= d {
                WaitStep::Finish(false)
            } else {
                let remaining = d - now_ms;
                WaitStep::Sleep(if remaining < READY_POLL_MS { remaining } else { READY_POLL_MS })
            }
        },
        None => WaitStep::Sleep(READY_POLL_MS),
    }
}

} // verus!
