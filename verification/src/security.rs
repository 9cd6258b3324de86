//! The authorization context that travels with every request.

use vstd::prelude::*;
use crate::text::text_equal;

verus! {

/// What is known of the client on the other end of a connection.
#[derive(Debug)]
pub struct ClientContext {
    /// Identifier of the client, as the transport reported it.
    pub id: String,
    /// Free-form metadata, name and value; the first entry of a name counts.
    pub metadata: Vec<(String, String)>,
}

/// The rights under which a request is served.
#[derive(Debug)]
pub struct SecurityContext {
    /// Whether an authenticator vouched for the principal.
    pub authenticated: bool,
    /// Whether the request is an internal, privileged operation.
    pub system: bool,
    /// The capabilities granted to the principal.
    pub capabilities: Vec<String>,
    pub client: ClientContext,
}

/// The mathematical value of a `ClientContext`.
pub ghost struct ClientContextView {
    pub id: Seq<char>,
    pub metadata: Seq<(Seq<char>, Seq<char>)>,
}

/// The mathematical value of a `SecurityContext`.
pub ghost struct SecurityContextView {
    pub authenticated: bool,
    pub system: bool,
    pub capabilities: Seq<Seq<char>>,
    pub client: ClientContextView,
}

impl View for ClientContext {
    type V = ClientContextView;

    open spec fn view(&self) -> ClientContextView {
        ClientContextView { id: self.id@, metadata: metadata_view(self.metadata@) }
    }
}

impl View for SecurityContext {
    type V = SecurityContextView;

    open spec fn view(&self) -> SecurityContextView {
        SecurityContextView {
            authenticated: self.authenticated,
            system: self.system,
            capabilities: capabilities_view(self.capabilities@),
            client: self.client@,
        }
    }
}

/// The value of the first metadata entry named `key`, if there is one.
pub open spec fn metadata_value(entries: Seq<(String, String)>, key: Seq<char>) -> Option<
    Seq<char>,
>
    decreases entries.len(),
{
    if entries.len() == 0 {
        None
    } else if entries[0].0@ == key {
        Some(entries[0].1@)
    } else {
        metadata_value(entries.drop_first(), key)
    }
}

/// Some capability in the list is `capability`.
pub open spec fn grants(capabilities: Seq<String>, capability: Seq<char>) -> bool {
    exists|i: int| 0 <= i < capabilities.len() && #[trigger] capabilities[i]@ == capability
}

impl ClientContext {
    /// A client with the given identifier and no metadata.
    pub fn new(id: &str) -> (client: ClientContext)
        ensures
            client.id@ == id@,
            client.metadata@.len() == 0,
    {
        ClientContext { id: id.to_owned(), metadata: Vec::new() }
    }

    /// The value of the first metadata entry named `key`.
    pub fn metadata_get(&self, key: &str) -> (value: Option<&String>)
        ensures
            match value {
                Some(v) => metadata_value(self.metadata@, key@) == Some(v@),
                None => metadata_value(self.metadata@, key@) is None,
            },
    {
        let mut i: usize = 0;
        assert(self.metadata@.skip(0) =~= self.metadata@);
        while i < self.metadata.len()
            invariant
                i <= self.metadata.len(),
                metadata_value(self.metadata@, key@) == metadata_value(
                    self.metadata@.skip(i as int),
                    key@,
                ),
            decreases self.metadata.len() - i,
        {
            let ghost rest = self.metadata@.skip(i as int);
            assert(rest[0] == self.metadata@[i as int]);
            assert(rest.drop_first() =~= self.metadata@.skip(i + 1));
            if text_equal(self.metadata[i].0.as_str(), key) {
                return Some(&self.metadata[i].1);
            }
            i += 1;
        }
        None
    }
}

impl SecurityContext {
    /// The context of internal, privileged operations.
    pub fn system() -> (context: SecurityContext)
        ensures
            context.system,
            context.authenticated,
            context.capabilities@.len() == 0,
            context.client.id@ == "system"@,
            context.client.metadata@.len() == 0,
    {
        SecurityContext {
            authenticated: true,
            system: true,
            capabilities: Vec::new(),
            client: ClientContext::new("system"),
        }
    }

    /// The context of a client that no authenticator has vouched for and that
    /// holds no capability.
    pub fn anonymous(client: ClientContext) -> (context: SecurityContext)
        ensures
            !context.system,
            !context.authenticated,
            context.capabilities@.len() == 0,
            context.client == client,
    {
        SecurityContext { authenticated: false, system: false, capabilities: Vec::new(), client }
    }

    pub fn is_system(&self) -> (yes: bool)
        ensures
            yes == self.system,
    {
        self.system
    }

    pub fn is_authenticated(&self) -> (yes: bool)
        ensures
            yes == self.authenticated,
    {
        self.authenticated
    }

    /// Whether the context carries `capability`.
    pub fn has_capability(&self, capability: &str) -> (yes: bool)
        ensures
            yes == grants(self.capabilities@, capability@),
    {
        let mut i: usize = 0;
        while i < self.capabilities.len()
            invariant
                i <= self.capabilities.len(),
                forall|k: int| 0 <= k < i ==> self.capabilities@[k]@ != capability@,
            decreases self.capabilities.len() - i,
        {
            if text_equal(self.capabilities[i].as_str(), capability) {
                return true;
            }
            i += 1;
        }
        false
    }

    /// Whether the client counts as initialized: a system context, or one
    /// that carries the capability `initialized`.
    pub fn is_initialized(&self) -> (yes: bool)
        ensures
            yes == initialized(*self),
    {
        self.system || self.has_capability("initialized")
    }
}

/// The client behind `context` counts as initialized.
pub open spec fn initialized(context: SecurityContext) -> bool {
    context.system || grants(context.capabilities@, "initialized"@)
}

/// The characters of each capability.
pub open spec fn capabilities_view(capabilities: Seq<String>) -> Seq<Seq<char>> {
    Seq::new(capabilities.len(), |i: int| capabilities[i]@)
}

/// The characters of each metadata entry.
pub open spec fn metadata_view(entries: Seq<(String, String)>) -> Seq<(Seq<char>, Seq<char>)> {
    Seq::new(entries.len(), |i: int| (entries[i].0@, entries[i].1@))
}

impl Clone for ClientContext {
    fn clone(&self) -> (copy: Self)
        ensures
            copy@ == self@,
    {
        let mut metadata: Vec<(String, String)> = Vec::new();
        let mut i: usize = 0;
        while i < self.metadata.len()
            invariant
                i <= self.metadata.len(),
                metadata.len() == i,
                forall|k: int| 0 <= k < i ==> metadata@[k] == self.metadata@[k],
            decreases self.metadata.len() - i,
        {
            metadata.push((self.metadata[i].0.clone(), self.metadata[i].1.clone()));
            i += 1;
        }
        assert(metadata_view(metadata@) =~= metadata_view(self.metadata@));
        ClientContext { id: self.id.clone(), metadata }
    }
}

impl Clone for SecurityContext {
    fn clone(&self) -> (copy: Self)
        ensures
            copy@ == self@,
    {
        let mut capabilities: Vec<String> = Vec::new();
        let mut i: usize = 0;
        while i < self.capabilities.len()
            invariant
                i <= self.capabilities.len(),
                capabilities.len() == i,
                forall|k: int| 0 <= k < i ==> capabilities@[k] == self.capabilities@[k],
            decreases self.capabilities.len() - i,
        {
            capabilities.push(self.capabilities[i].clone());
            i += 1;
        }
        assert(capabilities_view(capabilities@) =~= capabilities_view(self.capabilities@));
        SecurityContext {
            authenticated: self.authenticated,
            system: self.system,
            capabilities,
            client: self.client.clone(),
        }
    }
}

} // verus!
