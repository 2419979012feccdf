//! The request router: a lifecycle state machine around the document store
//! and the formatter registry. Lifecycle and document-sync events mutate the
//! server; a formatting request only reads it and yields the invocation plan
//! for the external tool, so one failed request can never disturb another.

use crate::config::Config;
use crate::config::first_match;
use crate::format::FormatError;
use crate::format::FormatJob;
use crate::format::format_outcome_spec;
use crate::format::job_for;
use crate::format::lemma_identity_tool_round_trip;
use crate::store::DocumentStore;
use crate::store::empty_entries;
use crate::text::extension_of;
use crate::text::extension_spec;
use vstd::prelude::*;
use vstd::string::StringExecFns;
use vstd::utf8::encode_utf8;

verus! {

/// Where a server session stands in its lifecycle.
#[derive(Clone, Copy, PartialEq, Eq, Structural)]
pub enum LifecycleState {
    /// No `initialize` request seen yet.
    Uninitialized,
    /// `initialize` answered; awaiting the `initialized` acknowledgment.
    AwaitingAck,
    /// Serving document-sync events and formatting requests.
    Initialized,
    /// `shutdown` received; no further document mutation is honored.
    ShuttingDown,
}

/// What the server declares in answer to `initialize`.
pub struct InitializeOutcome {
    /// The server wants every change notification to carry the full text.
    pub full_document_sync: bool,
    /// The server answers formatting requests.
    pub formatting_provider: bool,
    pub server_name: String,
    pub server_version: Option<String>,
}

/// The answer to a formatting request before the external tool runs:
/// either there is nothing to format, or this invocation plan.
pub enum FormatPlan {
    NoEdit,
    Run(FormatJob),
}

/// One server instance: its resolved formatter registry, the store of open
/// documents, and its lifecycle state.
pub struct BridgeServer {
    pub config: Config,
    pub documents: DocumentStore,
    pub state: LifecycleState,
}

/// True when `r` is the plan owed for a formatting request on the document
/// `uri` standing at `path`: no edit while the server is not serving, for an
/// unknown document, a path without extension, or an extension no definition
/// claims; otherwise the invocation of the resolved definition on the stored
/// snapshot.
pub open spec fn plan_for(s: BridgeServer, uri: Seq<char>, path: Seq<char>, r: FormatPlan) -> bool {
    if !(s.state is Initialized) || !s.documents@.contains_key(uri) {
        r is NoEdit
    } else {
        let text = s.documents@[uri];
        match extension_spec(path) {
            None => r is NoEdit,
            Some(ext) => match first_match(s.config.merged_defs(), ext) {
                None => r is NoEdit,
                Some(d) => r matches FormatPlan::Run(job) && job_for(d, text, path, job),
            },
        }
    }
}

/// Law: a formatting request for a stored document whose resolved tool
/// echoes its input returns the stored text unchanged: the planned job hands
/// the tool exactly the stored snapshot, and decoding the echoed bytes gives
/// that snapshot back.
pub proof fn lemma_request_round_trip(
    s: BridgeServer,
    uri: Seq<char>,
    path: Seq<char>,
    r: FormatPlan,
)
    requires
        s.state is Initialized,
        s.documents@.contains_key(uri),
        extension_spec(path) is Some,
        first_match(s.config.merged_defs(), extension_spec(path)->Some_0) is Some,
        plan_for(s, uri, path, r),
    ensures
        r matches FormatPlan::Run(job) && job.text@ == s.documents@[uri] && ({
            let outcome = format_outcome_spec(Ok(encode_utf8(job.text@)));
            outcome == Ok::<Seq<char>, FormatError>(job.text@)
        }),
{
    lemma_identity_tool_round_trip(s.documents@[uri]);
}

impl BridgeServer {
    /// A new server around `config`: no documents, lifecycle not begun.
    pub fn new(config: Config) -> (r: Self)
        ensures
            r.config == config,
            r.documents@ == empty_entries(),
            r.state is Uninitialized,
    {
        BridgeServer { config, documents: DocumentStore::new(), state: LifecycleState::Uninitialized }
    }

    /// Answers `initialize`: valid only before the lifecycle has begun, it
    /// declares full-document sync and formatting support and awaits the
    /// acknowledgment; at any later point it changes nothing.
    pub fn initialize(&mut self, version: Option<String>) -> (r: Option<InitializeOutcome>)
        ensures
            final(self).config == old(self).config,
            final(self).documents@ == old(self).documents@,
            if old(self).state is Uninitialized {
                &&& final(self).state is AwaitingAck
                &&& r matches Some(o) && o.full_document_sync && o.formatting_provider
                    && o.server_name@ == "bridge_ls"@ && o.server_version == version
            } else {
                &&& final(self).state == old(self).state
                &&& r is None
            },
    {
        match self.state {
            LifecycleState::Uninitialized => {
                self.state = LifecycleState::AwaitingAck;
                Some(
                    InitializeOutcome {
                        full_document_sync: true,
                        formatting_provider: true,
                        server_name: String::from_str("bridge_ls"),
                        server_version: version,
                    },
                )
            },
            _ => None,
        }
    }

    /// Takes the `initialized` acknowledgment and yields the informational
    /// notification owed to the client.
    pub fn initialized(&mut self) -> (r: Option<String>)
        ensures
            final(self).config == old(self).config,
            final(self).documents@ == old(self).documents@,
            if old(self).state is AwaitingAck {
                &&& final(self).state is Initialized
                &&& r matches Some(m) && m@ == "Server initialized"@
            } else {
                &&& final(self).state == old(self).state
                &&& r is None
            },
    {
        match self.state {
            LifecycleState::AwaitingAck => {
                self.state = LifecycleState::Initialized;
                Some(String::from_str("Server initialized"))
            },
            _ => None,
        }
    }

    /// A document was opened: stores its text and yields the log message;
    /// outside the serving state the event is ignored.
    pub fn did_open(&mut self, uri: &str, text: String) -> (log: Option<String>)
        ensures
            final(self).config == old(self).config,
            final(self).state == old(self).state,
            if old(self).state is Initialized {
                &&& final(self).documents@ == old(self).documents@.insert(uri@, text@)
                &&& log matches Some(m) && m@ == "File opened: "@ + uri@
            } else {
                &&& final(self).documents@ == old(self).documents@
                &&& log is None
            },
    {
        match self.state {
            LifecycleState::Initialized => {
                self.documents.open(uri, text);
                Some(String::from_str("File opened: ").concat(uri))
            },
            _ => None,
        }
    }

    /// A document changed: replaces the stored text of a known document with
    /// the first full-text change, or with empty text when the notification
    /// carries none; an unknown document or an event outside the serving
    /// state changes nothing.
    pub fn did_change(&mut self, uri: &str, content_changes: &Vec<String>)
        ensures
            final(self).config == old(self).config,
            final(self).state == old(self).state,
            ({
                let new_text: Seq<char> = if content_changes@.len() > 0 {
                    content_changes@[0]@
                } else {
                    Seq::empty()
                };
                if old(self).state is Initialized && old(self).documents@.contains_key(uri@) {
                    final(self).documents@ == old(self).documents@.insert(uri@, new_text)
                } else {
                    final(self).documents@ == old(self).documents@
                }
            }),
    {
        match self.state {
            LifecycleState::Initialized => {
                let text = if content_changes.len() > 0 {
                    content_changes[0].clone()
                } else {
                    String::new()
                };
                let _ = self.documents.update(uri, text);
            },
            _ => {},
        }
    }

    /// A document was closed: removes its entry and yields the log message;
    /// outside the serving state the event is ignored.
    pub fn did_close(&mut self, uri: &str) -> (log: Option<String>)
        ensures
            final(self).config == old(self).config,
            final(self).state == old(self).state,
            if old(self).state is Initialized {
                &&& final(self).documents@ == old(self).documents@.remove(uri@)
                &&& log matches Some(m) && m@ == "File closed: "@ + uri@
            } else {
                &&& final(self).documents@ == old(self).documents@
                &&& log is None
            },
    {
        match self.state {
            LifecycleState::Initialized => {
                self.documents.close(uri);
                Some(String::from_str("File closed: ").concat(uri))
            },
            _ => None,
        }
    }

    /// Answers a formatting request for the document `uri` whose file path
    /// is `path`: reads the stored snapshot, resolves a formatter for the
    /// path's extension, and plans the invocation; any miss answers no edit.
    /// The request never mutates the server.
    pub fn formatting(&self, uri: &str, path: &str) -> (r: FormatPlan)
        ensures
            plan_for(*self, uri@, path@, r),
    {
        let serving = match self.state {
            LifecycleState::Initialized => true,
            _ => false,
        };
        if !serving {
            return FormatPlan::NoEdit;
        }
        let doc = match self.documents.get(uri) {
            Some(d) => d,
            None => {
                return FormatPlan::NoEdit;
            },
        };
        let ext = match extension_of(path) {
            Some(e) => e,
            None => {
                return FormatPlan::NoEdit;
            },
        };
        match self.config.get_formatter(ext.as_str()) {
            Some(f) => FormatPlan::Run(f.invocation(doc.as_str(), path)),
            None => FormatPlan::NoEdit,
        }
    }

    /// Takes `shutdown`: always succeeds and ends document mutation.
    pub fn shutdown(&mut self)
        ensures
            final(self).config == old(self).config,
            final(self).documents@ == old(self).documents@,
            final(self).state is ShuttingDown,
    {
        self.state = LifecycleState::ShuttingDown;
    }
}

} // verus!
