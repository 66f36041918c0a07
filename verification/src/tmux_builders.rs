//! Builders for tmux sessions nested in a directory tree, and the client to
//! attach to one of them.

use vstd::prelude::*;
use crate::registry::TmuxSessionInfo;
use crate::tmux::{
    TmuxClientDescriptor, WindowDescriptor, command_lines_view, session_commands,
    session_commands_spec,
};

verus! {

/// The terminal size a client gets unless told otherwise: 24 rows, 80 columns.
pub open spec fn default_pty_size() -> (u16, u16) {
    (24, 80)
}

/// Builder for a tmux client attached to a session.
pub struct ClientBuilder {
    pty_rows: u16,
    pty_cols: u16,
}

impl View for ClientBuilder {
    type V = (u16, u16);

    closed spec fn view(&self) -> (u16, u16) {
        (self.pty_rows, self.pty_cols)
    }
}

impl ClientBuilder {
    pub fn new() -> (b: Self)
        ensures
            b@ == default_pty_size(),
    {
        ClientBuilder { pty_rows: 24, pty_cols: 80 }
    }

    /// Sets the size of the client's terminal.
    pub fn pty_size(&mut self, rows: u16, cols: u16)
        ensures
            final(self)@ == (rows, cols),
    {
        self.pty_rows = rows;
        self.pty_cols = cols;
    }

    /// The client, attached to `session_name`, with the configured size.
    pub fn build(self, session_name: &str) -> (c: TmuxClientDescriptor)
        ensures
            c.spec_session_name() == session_name@,
            c.spec_pty_size() == self@,
    {
        TmuxClientDescriptor::new(session_name.to_owned(), self.pty_rows, self.pty_cols)
    }
}

/// Builder for a tmux session whose windows start in a given directory.
pub struct SessionBuilder {
    name: String,
    parent_path: String,
    windows: Vec<WindowDescriptor>,
    client: Option<ClientBuilder>,
}

/// A session builder as plain values.
pub struct SessionBuilderView {
    pub name: Seq<char>,
    pub parent_path: Seq<char>,
    pub windows: Seq<WindowDescriptor>,
    pub client: Option<(u16, u16)>,
}

impl View for SessionBuilder {
    type V = SessionBuilderView;

    closed spec fn view(&self) -> SessionBuilderView {
        SessionBuilderView {
            name: self.name@,
            parent_path: self.parent_path@,
            windows: self.windows@,
            client: match self.client {
                Some(c) => Some(c@),
                None => None,
            },
        }
    }
}

impl SessionBuilder {
    pub fn new(name: &str, parent_path: String) -> (b: Self)
        ensures
            b@ == (SessionBuilderView {
                name: name@,
                parent_path: parent_path@,
                windows: Seq::empty(),
                client: None,
            }),
    {
        SessionBuilder { name: name.to_owned(), parent_path, windows: Vec::new(), client: None }
    }

    /// Adds a window running the default shell.
    pub fn window(&mut self, name: &str)
        ensures
            final(self)@.windows.len() == old(self)@.windows.len() + 1,
            final(self)@.windows.subrange(0, old(self)@.windows.len() as int)
                == old(self)@.windows,
            final(self)@.windows.last().spec_name() == name@,
            final(self)@.windows.last().spec_command() is None,
            final(self)@ == (SessionBuilderView { windows: final(self)@.windows, ..old(self)@ }),
    {
        self.windows.push(WindowDescriptor::new(name));
        assert(self@.windows.subrange(0, old(self)@.windows.len() as int) =~= old(self)@.windows);
    }

    /// Adds a window running `command`.
    pub fn window_with_command(&mut self, name: &str, command: &str)
        ensures
            final(self)@.windows.len() == old(self)@.windows.len() + 1,
            final(self)@.windows.subrange(0, old(self)@.windows.len() as int)
                == old(self)@.windows,
            final(self)@.windows.last().spec_name() == name@,
            final(self)@.windows.last().spec_command() == Some(command@),
            final(self)@ == (SessionBuilderView { windows: final(self)@.windows, ..old(self)@ }),
    {
        self.windows.push(WindowDescriptor::new(name).with_command(command));
        assert(self@.windows.subrange(0, old(self)@.windows.len() as int) =~= old(self)@.windows);
    }

    /// Attaches a client to this session, configured by `f` (only one client
    /// is attached per environment).
    pub fn with_client<F>(&mut self, f: F) where F: FnOnce(&mut ClientBuilder)
        requires
            forall|b: &mut ClientBuilder| f.requires((b,)),
        ensures
            exists|b: &mut ClientBuilder|
                (*b)@ == default_pty_size() && f.ensures((b,), ()) && final(self)@
                    == (SessionBuilderView { client: Some((*final(b))@), ..old(self)@ }),
    {
        let mut builder = ClientBuilder::new();
        let r = &mut builder;
        let ghost gr = r;
        f(r);
        let ghost x = choose|x: &mut ClientBuilder|
            *x == *gr && f.ensures((x,), ()) && builder == *final(x);
        self.client = Some(builder);
    }

    pub fn build(self) -> (d: HierarchicalTmuxSessionDescriptor)
        ensures
            d.spec_name() == self@.name,
            d.spec_parent_path() == self@.parent_path,
            d.spec_windows() == self@.windows,
            match self@.client {
                Some(size) => d.spec_client() matches Some(c) && c.spec_session_name()
                    == self@.name && c.spec_pty_size() == size,
                None => d.spec_client() is None,
            },
    {
        let client_descriptor = match self.client {
            Some(c) => Some(c.build(self.name.as_str())),
            None => None,
        };
        HierarchicalTmuxSessionDescriptor {
            name: self.name,
            parent_path: self.parent_path,
            windows: self.windows,
            client_descriptor,
        }
    }
}

/// A tmux session that knows its working directory.
#[derive(Debug)]
pub struct HierarchicalTmuxSessionDescriptor {
    name: String,
    parent_path: String,
    windows: Vec<WindowDescriptor>,
    client_descriptor: Option<TmuxClientDescriptor>,
}

impl HierarchicalTmuxSessionDescriptor {
    pub closed spec fn spec_name(&self) -> Seq<char> {
        self.name@
    }

    pub closed spec fn spec_parent_path(&self) -> Seq<char> {
        self.parent_path@
    }

    pub closed spec fn spec_windows(&self) -> Seq<WindowDescriptor> {
        self.windows@
    }

    pub closed spec fn spec_client(&self) -> Option<TmuxClientDescriptor> {
        self.client_descriptor
    }

    pub fn name(&self) -> (n: &str)
        ensures
            n@ == self.spec_name(),
    {
        self.name.as_str()
    }

    /// The client descriptor, if a client is configured.
    pub fn client_descriptor(&self) -> (c: Option<&TmuxClientDescriptor>)
        ensures
            match c {
                Some(d) => self.spec_client() == Some(*d),
                None => self.spec_client() is None,
            },
    {
        match &self.client_descriptor {
            Some(d) => Some(d),
            None => None,
        }
    }

    /// The tmux command lines that create the session, started in its parent
    /// directory.
    pub fn tmux_commands(&self) -> (r: Vec<Vec<String>>)
        ensures
            command_lines_view(r@) == session_commands_spec(
                self.spec_name(),
                self.spec_windows(),
                self.spec_parent_path(),
            ),
    {
        session_commands(self.name.as_str(), &self.windows, self.parent_path.as_str())
    }

    /// What is registered once the session exists: its name and working directory.
    pub fn session_info(&self) -> (i: TmuxSessionInfo)
        ensures
            i.name@ == self.spec_name(),
            i.working_dir@ == self.spec_parent_path(),
    {
        TmuxSessionInfo { name: self.name.clone(), working_dir: self.parent_path.clone() }
    }
}

} // verus!
