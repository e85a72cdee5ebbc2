//! Node-side ledger of console metadata to restore after a broker restart.
use vstd::prelude::*;
use crate::goal_table::{has_key, index_of, lemma_index_of, table_map};
use crate::ordering::SortedEntries;
use crate::registration::{register_topic_type, spec_resolve_frontend, TopicTypeRegistration};
use crate::text::{trim, trim_ws};

verus! {

/// Seconds between keep-alive re-registrations.
pub const KEEP_ALIVE_SECS: u64 = 10;

/// Remembers the node's endpoints and topic-type registrations, to push
/// them again when the session reconnects and on every keep-alive tick.
pub struct ControlPlaneLedger {
    service_frontend: Option<String>,
    host: String,
    transport: String,
    topic_types: SortedEntries<String>,
    keep_alive_started: bool,
}

/// The explicit frontend kept by the ledger: trimmed, and dropped when blank.
pub open spec fn kept_frontend(service_frontend: Option<Seq<char>>) -> Option<Seq<char>> {
    match service_frontend {
        Some(f) => if trim_ws(f).len() > 0 {
            Some(trim_ws(f))
        } else {
            None
        },
        None => None,
    }
}

impl ControlPlaneLedger {
    pub closed spec fn spec_frontend(&self) -> Option<Seq<char>> {
        match self.service_frontend {
            Some(f) => Some(f@),
            None => None,
        }
    }

    pub closed spec fn spec_host(&self) -> Seq<char> {
        self.host@
    }

    pub closed spec fn spec_transport(&self) -> Seq<char> {
        self.transport@
    }

    /// Topic → message type, as remembered.
    pub closed spec fn spec_topic_types(&self) -> Map<Seq<char>, Seq<char>> {
        self.topic_types.map().map_values(|t: String| t@)
    }

    pub closed spec fn spec_keep_alive_started(&self) -> bool {
        self.keep_alive_started
    }

    pub closed spec fn wf(&self) -> bool {
        self.topic_types.wf()
    }

    /// A ledger for a TCP node on `localhost` with nothing remembered.
    pub fn new() -> (l: Self)
        ensures
            l.wf(),
            l.spec_frontend() is None,
            l.spec_host() == "localhost"@,
            l.spec_transport() == "tcp"@,
            l.spec_topic_types() == Map::<Seq<char>, Seq<char>>::empty(),
            !l.spec_keep_alive_started(),
    {
        let l = ControlPlaneLedger {
            service_frontend: None,
            host: "localhost".to_owned(),
            transport: "tcp".to_owned(),
            topic_types: SortedEntries::new(),
            keep_alive_started: false,
        };
        assert(l.spec_topic_types() =~= Map::<Seq<char>, Seq<char>>::empty());
        l
    }

    /// Record where the node's broker is.
    pub fn update_endpoints(&mut self, service_frontend: Option<&str>, host: &str, transport: &str)
        ensures
            final(self).spec_frontend() == kept_frontend(
                match service_frontend {
                    Some(f) => Some(f@),
                    None => None,
                },
            ),
            final(self).spec_host() == host@,
            final(self).spec_transport() == transport@,
            final(self).spec_topic_types() == old(self).spec_topic_types(),
            final(self).spec_keep_alive_started() == old(self).spec_keep_alive_started(),
            final(self).wf() == old(self).wf(),
    {
        self.service_frontend = match service_frontend {
            Some(f) => {
                let t = trim(f);
                if t.unicode_len() > 0 {
                    Some(t.to_owned())
                } else {
                    None
                }
            },
            None => None,
        };
        self.host = host.to_owned();
        self.transport = transport.to_owned();
    }

    /// Remember the message type of `topic` (replacing an earlier one).
    /// Returns whether the keep-alive loop must be started now (the first time).
    pub fn remember_topic_type(&mut self, topic: &str, msg_type: &str) -> (start_keep_alive: bool)
        requires
            old(self).wf(),
        ensures
            final(self).wf(),
            final(self).spec_topic_types() == old(self).spec_topic_types().insert(topic@, msg_type@),
            start_keep_alive == !old(self).spec_keep_alive_started(),
            final(self).spec_keep_alive_started(),
            final(self).spec_frontend() == old(self).spec_frontend(),
            final(self).spec_host() == old(self).spec_host(),
            final(self).spec_transport() == old(self).spec_transport(),
    {
        let value = msg_type.to_owned();
        let ghost v = value;
        match self.topic_types.find(topic) {
            Some(i) => {
                let _ = self.topic_types.replace_at(i, value);
            },
            None => {
                self.topic_types.insert_new(topic.to_owned(), value);
            },
        }
        proof {
            assert(self.topic_types.map() == old(self).topic_types.map().insert(topic@, v));
            assert(self.spec_topic_types() =~= old(self).spec_topic_types().insert(topic@, msg_type@));
        }
        let start = !self.keep_alive_started;
        self.keep_alive_started = true;
        start
    }

    /// The topic-type registrations to send again, one per remembered topic.
    pub fn restore_plan(&self) -> (r: Vec<TopicTypeRegistration>)
        requires
            self.wf(),
        ensures
            r@.len() == self.spec_topic_types().len(),
            forall|i: int| 0 <= i < r@.len() ==> {
                &&& self.spec_topic_types().contains_key((#[trigger] r@[i]).topic@)
                &&& r@[i].msg_type@ == self.spec_topic_types()[r@[i].topic@]
                &&& r@[i].target@ == spec_resolve_frontend(self.spec_frontend(), self.spec_host(), self.spec_transport(), "grpc"@)
            },
            forall|i: int, j: int| 0 <= i < j < r@.len() ==> (#[trigger] r@[i]).topic@ != (#[trigger] r@[j]).topic@,
    {
        let mut out: Vec<TopicTypeRegistration> = Vec::new();
        let n = self.topic_types.len();
        let ghost s = self.topic_types.view_seq();
        let mut i: usize = 0;
        while i < n
            invariant
                self.wf(),
                s == self.topic_types.view_seq(),
                n == s.len(),
                i <= n,
                out@.len() == i,
                forall|j: int| 0 <= j < i ==> (#[trigger] out@[j]).topic@ == s[j].0 && out@[j].msg_type@ == s[j].1@
                    && out@[j].target@ == spec_resolve_frontend(self.spec_frontend(), self.spec_host(), self.spec_transport(), "grpc"@),
            decreases n - i,
        {
            let (topic, msg_type) = self.topic_types.at(i);
            let frontend = match &self.service_frontend {
                Some(f) => Some(f.as_str()),
                None => None,
            };
            out.push(register_topic_type(frontend, self.host.as_str(), self.transport.as_str(), topic, msg_type.as_str()));
            i = i + 1;
        }
        proof {
            crate::goal_table::lemma_table_len(s);
            assert forall|j: int| 0 <= j < out@.len() implies {
                &&& self.spec_topic_types().contains_key((#[trigger] out@[j]).topic@)
                &&& out@[j].msg_type@ == self.spec_topic_types()[out@[j].topic@]
            } by {
                lemma_index_of(s, j);
            }
            assert forall|a: int, b: int| 0 <= a < b < out@.len() implies (#[trigger] out@[a]).topic@ != (#[trigger] out@[b]).topic@ by {
                assert(s[a].0 != s[b].0);
            }
            assert(self.spec_topic_types().dom() =~= self.topic_types.map().dom());
            assert(self.spec_topic_types().len() == self.topic_types.map().len());
        }
        out
    }
}

} // verus!
