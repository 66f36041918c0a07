//! The context descriptors are created in: the root directory, the registry of
//! what exists so far, the tmux socket and the client waiting to be attached.

use vstd::prelude::*;
use crate::error::CreateError;
use crate::registry::{ResourceRegistry, TmuxSessionInfo, lookup_text};
use crate::remote::opt_view;
use crate::tmux::TmuxClientDescriptor;

verus! {

/// A copy of an optional string.
pub fn clone_opt_string(o: &Option<String>) -> (r: Option<String>)
    ensures
        opt_view(r) == opt_view(*o),
{
    match o {
        Some(s) => Some(s.clone()),
        None => None,
    }
}

/// Where and with what descriptors are created.
pub struct CreateContext {
    root_path: String,
    registry: ResourceRegistry,
    tmux_socket: Option<String>,
    config_path: Option<String>,
    pending_client: Option<TmuxClientDescriptor>,
}

impl CreateContext {
    pub closed spec fn spec_root_path(&self) -> Seq<char> {
        self.root_path@
    }

    pub closed spec fn spec_registry(&self) -> ResourceRegistry {
        self.registry
    }

    pub closed spec fn spec_tmux_socket(&self) -> Option<Seq<char>> {
        opt_view(self.tmux_socket)
    }

    pub closed spec fn spec_config_path(&self) -> Option<Seq<char>> {
        opt_view(self.config_path)
    }

    pub closed spec fn spec_pending_client(&self) -> Option<TmuxClientDescriptor> {
        self.pending_client
    }

    /// A context rooted at `root_path`, with nothing registered yet.
    pub fn new(root_path: String) -> (c: Self)
        ensures
            c.spec_root_path() == root_path@,
            c.spec_registry().spec_git_repos() == Map::<Seq<char>, Seq<char>>::empty(),
            c.spec_registry().spec_worktrees() == Map::<(Seq<char>, Seq<char>), Seq<char>>::empty(),
            c.spec_registry().spec_tmux_sessions() == Map::<Seq<char>, TmuxSessionInfo>::empty(),
            c.spec_registry().spec_dirs() == Map::<Seq<char>, Seq<char>>::empty(),
            c.spec_tmux_socket() is None,
            c.spec_config_path() is None,
            c.spec_pending_client() is None,
    {
        CreateContext {
            root_path,
            registry: ResourceRegistry::new(),
            tmux_socket: None,
            config_path: None,
            pending_client: None,
        }
    }

    pub fn root_path(&self) -> (p: &String)
        ensures
            p@ == self.spec_root_path(),
    {
        &self.root_path
    }

    /// Registers a directory under `key`.
    pub fn register_resource(&mut self, key: String, path: String)
        ensures
            final(self).spec_registry().spec_dirs() == old(
                self,
            ).spec_registry().spec_dirs().insert(key@, path@),
            final(self).spec_registry().spec_git_repos() == old(
                self,
            ).spec_registry().spec_git_repos(),
            final(self).spec_registry().spec_worktrees() == old(
                self,
            ).spec_registry().spec_worktrees(),
            final(self).spec_registry().spec_tmux_sessions() == old(
                self,
            ).spec_registry().spec_tmux_sessions(),
            final(self).spec_root_path() == old(self).spec_root_path(),
            final(self).spec_tmux_socket() == old(self).spec_tmux_socket(),
            final(self).spec_config_path() == old(self).spec_config_path(),
            final(self).spec_pending_client() == old(self).spec_pending_client(),
    {
        self.registry.register_dir(key, path);
    }

    /// The path of the directory registered under `key`, if any.
    pub fn get_resource(&self, key: &str) -> (p: Option<String>)
        ensures
            opt_view(p) == lookup_text(self.spec_registry().spec_dirs(), key@),
    {
        match self.registry.get_dir(key) {
            Some(p) => Some(p.clone()),
            None => None,
        }
    }

    pub fn registry(&self) -> (r: &ResourceRegistry)
        ensures
            *r == self.spec_registry(),
    {
        &self.registry
    }

    /// The registry, to register resources in.
    pub fn registry_mut(&mut self) -> (r: &mut ResourceRegistry)
        ensures
            *r == old(self).spec_registry(),
            final(self).spec_registry() == *final(r),
            final(self).spec_root_path() == old(self).spec_root_path(),
            final(self).spec_tmux_socket() == old(self).spec_tmux_socket(),
            final(self).spec_config_path() == old(self).spec_config_path(),
            final(self).spec_pending_client() == old(self).spec_pending_client(),
    {
        &mut self.registry
    }

    pub fn set_tmux_socket(&mut self, socket: String)
        ensures
            final(self).spec_tmux_socket() == Some(socket@),
            final(self).spec_root_path() == old(self).spec_root_path(),
            final(self).spec_registry() == old(self).spec_registry(),
            final(self).spec_config_path() == old(self).spec_config_path(),
            final(self).spec_pending_client() == old(self).spec_pending_client(),
    {
        self.tmux_socket = Some(socket);
    }

    pub fn tmux_socket(&self) -> (s: Option<String>)
        ensures
            opt_view(s) == self.spec_tmux_socket(),
    {
        clone_opt_string(&self.tmux_socket)
    }

    /// The tmux socket, or an invalid-descriptor error with `missing` as its
    /// message when none is set.
    pub fn require_tmux_socket(&self, missing: &str) -> (r: Result<String, CreateError>)
        ensures
            match r {
                Ok(s) => self.spec_tmux_socket() == Some(s@),
                Err(e) => self.spec_tmux_socket() is None && e == CreateError::InvalidDescriptor(
                    e->InvalidDescriptor_0,
                ) && e->InvalidDescriptor_0@ == missing@,
            },
    {
        match &self.tmux_socket {
            Some(s) => Ok(s.clone()),
            None => Err(CreateError::InvalidDescriptor(missing.to_owned())),
        }
    }

    pub fn set_config_path(&mut self, path: String)
        ensures
            final(self).spec_config_path() == Some(path@),
            final(self).spec_root_path() == old(self).spec_root_path(),
            final(self).spec_registry() == old(self).spec_registry(),
            final(self).spec_tmux_socket() == old(self).spec_tmux_socket(),
            final(self).spec_pending_client() == old(self).spec_pending_client(),
    {
        self.config_path = Some(path);
    }

    pub fn config_path(&self) -> (p: Option<String>)
        ensures
            opt_view(p) == self.spec_config_path(),
    {
        clone_opt_string(&self.config_path)
    }

    /// Sets the client to attach once everything else is created.
    pub fn set_pending_client(&mut self, client: TmuxClientDescriptor)
        ensures
            final(self).spec_pending_client() == Some(client),
            final(self).spec_root_path() == old(self).spec_root_path(),
            final(self).spec_registry() == old(self).spec_registry(),
            final(self).spec_tmux_socket() == old(self).spec_tmux_socket(),
            final(self).spec_config_path() == old(self).spec_config_path(),
    {
        self.pending_client = Some(client);
    }

    /// Takes the pending client, leaving none.
    pub fn take_pending_client(&mut self) -> (c: Option<TmuxClientDescriptor>)
        ensures
            c == old(self).spec_pending_client(),
            final(self).spec_pending_client() is None,
            final(self).spec_root_path() == old(self).spec_root_path(),
            final(self).spec_registry() == old(self).spec_registry(),
            final(self).spec_tmux_socket() == old(self).spec_tmux_socket(),
            final(self).spec_config_path() == old(self).spec_config_path(),
    {
        let c = self.pending_client.take();
        c
    }

    pub fn has_pending_client(&self) -> (b: bool)
        ensures
            b == self.spec_pending_client() is Some,
    {
        self.pending_client.is_some()
    }
}

/// A pending client is handed out once: taking it after it was set gives
/// it back and leaves none, so a second take gives nothing.
pub proof fn law_pending_client_taken_once(
    set: CreateContext,
    taken: CreateContext,
    first: Option<TmuxClientDescriptor>,
    again: CreateContext,
    second: Option<TmuxClientDescriptor>,
    client: TmuxClientDescriptor,
)
    requires
        set.spec_pending_client() == Some(client),
        first == set.spec_pending_client(),
        taken.spec_pending_client() is None,
        second == taken.spec_pending_client(),
        again.spec_pending_client() is None,
    ensures
        first == Some(client),
        second is None,
        !(again.spec_pending_client() is Some),
{
}

} // verus!
