//! The sidebar: what its buttons and menus hold, and what a message to it
//! comes to. Drawing is the caller's; deciding is done here.

use vstd::prelude::*;

verus! {

/// Seconds between a reloaded configuration and the end of the reload.
pub const CONFIG_RELOAD_DELAY: u64 = 1;

/// A buffer that shows what a server sends.
#[derive(Debug, Clone, PartialEq, Eq)]
pub enum Upstream {
    /// The buffer of the server itself.
    Server(String),
    /// A channel, by server and name.
    Channel(String, String),
    /// A query, by server and the other user.
    Query(String, String),
}

impl Upstream {
    /// Two buffers are the same when they are of one kind and carry the
    /// same names.
    pub open spec fn same(self, other: Upstream) -> bool {
        match (self, other) {
            (Upstream::Server(a), Upstream::Server(b)) => a@ == b@,
            (Upstream::Channel(a, c), Upstream::Channel(b, d)) => a@ == b@ && c@ == d@,
            (Upstream::Query(a, c), Upstream::Query(b, d)) => a@ == b@ && c@ == d@,
            _ => false,
        }
    }

    /// The name of the server that the buffer belongs to.
    pub open spec fn server_name(self) -> String {
        match self {
            Upstream::Server(server) => server,
            Upstream::Channel(server, _) => server,
            Upstream::Query(server, _) => server,
        }
    }

    pub fn equals(&self, other: &Upstream) -> (b: bool)
        ensures
            b == self.same(*other),
    {
        match (self, other) {
            (Upstream::Server(a), Upstream::Server(b)) => *a == *b,
            (Upstream::Channel(a, c), Upstream::Channel(b, d)) => *a == *b && *c == *d,
            (Upstream::Query(a, c), Upstream::Query(b, d)) => *a == *b && *c == *d,
            _ => false,
        }
    }

    pub fn server(&self) -> (name: &String)
        ensures
            *name == self.server_name(),
    {
        match self {
            Upstream::Server(server) => server,
            Upstream::Channel(server, _) => server,
            Upstream::Query(server, _) => server,
        }
    }

    pub fn is_server(&self) -> (b: bool)
        ensures
            b == (self is Server),
    {
        match self {
            Upstream::Server(_) => true,
            _ => false,
        }
    }

    pub fn duplicate(&self) -> (copy: Upstream)
        ensures
            copy == *self,
    {
        match self {
            Upstream::Server(server) => Upstream::Server(server.clone()),
            Upstream::Channel(server, channel) => Upstream::Channel(server.clone(), channel.clone()),
            Upstream::Query(server, query) => Upstream::Query(server.clone(), query.clone()),
        }
    }
}

/// A buffer that shows what the program itself keeps.
#[derive(Clone, Copy, Debug, PartialEq, Eq, Structural)]
pub enum Internal {
    FileTransfers,
    Highlights,
    Logs,
}

/// A pane, by the numbers under which the caller finds its window and the
/// pane in it again.
#[derive(Clone, Copy, Debug, PartialEq, Eq, Structural)]
pub struct PaneId {
    pub window: u64,
    pub pane: u64,
}

/// What the sidebar is told. `C` is what a reload of the configuration
/// gives: the configuration or the error.
#[derive(Debug, Clone, PartialEq, Eq)]
pub enum Message<C> {
    New(Upstream),
    Popout(Upstream),
    Focus(PaneId),
    Replace(Upstream),
    Close(PaneId),
    Swap(PaneId),
    Leave(Upstream),
    ToggleInternalBuffer(Internal),
    ToggleCommandBar,
    ToggleThemeEditor,
    ReloadConfigFile,
    ConfigReloaded(C),
    OpenReleaseWebsite,
    OpenDocumentation,
    OpenConfigFile,
    ReloadComplete,
    MarkAsRead(Upstream),
    MarkServerAsRead(String),
}

/// What the sidebar asks of the dashboard.
#[derive(Debug, Clone, PartialEq, Eq)]
pub enum Event<C> {
    New(Upstream),
    Popout(Upstream),
    Focus(PaneId),
    Replace(Upstream),
    Close(PaneId),
    Swap(PaneId),
    Leave(Upstream),
    ToggleInternalBuffer(Internal),
    ToggleCommandBar,
    ToggleThemeEditor,
    OpenReleaseWebsite,
    OpenDocumentation,
    OpenConfigFile,
    ConfigReloaded(C),
    MarkAsRead(Upstream),
    MarkServerAsRead(String),
}

/// Work that the caller starts after a message; what it yields comes back
/// as a message.
#[derive(Clone, Copy, Debug, PartialEq, Eq, Structural)]
pub enum Command {
    /// Nothing.
    Idle,
    /// Load the configuration file and report `ConfigReloaded`.
    LoadConfig,
    /// Wait this many seconds and report `ReloadComplete`.
    CompleteReloadAfter(u64),
}

/// The event that a message is passed on as, if it is.
pub open spec fn event_of<C>(message: Message<C>) -> Option<Event<C>> {
    match message {
        Message::New(buffer) => Some(Event::New(buffer)),
        Message::Popout(buffer) => Some(Event::Popout(buffer)),
        Message::Focus(pane) => Some(Event::Focus(pane)),
        Message::Replace(buffer) => Some(Event::Replace(buffer)),
        Message::Close(pane) => Some(Event::Close(pane)),
        Message::Swap(pane) => Some(Event::Swap(pane)),
        Message::Leave(buffer) => Some(Event::Leave(buffer)),
        Message::ToggleInternalBuffer(buffer) => Some(Event::ToggleInternalBuffer(buffer)),
        Message::ToggleCommandBar => Some(Event::ToggleCommandBar),
        Message::ToggleThemeEditor => Some(Event::ToggleThemeEditor),
        Message::ReloadConfigFile => None,
        Message::ConfigReloaded(outcome) => Some(Event::ConfigReloaded(outcome)),
        Message::OpenReleaseWebsite => Some(Event::OpenReleaseWebsite),
        Message::ReloadComplete => None,
        Message::OpenDocumentation => Some(Event::OpenDocumentation),
        Message::MarkAsRead(buffer) => Some(Event::MarkAsRead(buffer)),
        Message::MarkServerAsRead(server) => Some(Event::MarkServerAsRead(server)),
        Message::OpenConfigFile => Some(Event::OpenConfigFile),
    }
}

/// The work that a message starts.
pub open spec fn command_of<C>(message: Message<C>) -> Command {
    match message {
        Message::ReloadConfigFile => Command::LoadConfig,
        Message::ConfigReloaded(_) => Command::CompleteReloadAfter(CONFIG_RELOAD_DELAY),
        _ => Command::Idle,
    }
}

#[derive(Clone)]
pub struct Sidebar {
    pub hidden: bool,
    reloading_config: bool,
}

impl Default for Sidebar {
    fn default() -> (sidebar: Sidebar)
        ensures
            !sidebar.concealed(),
            !sidebar.reloading(),
    {
        Sidebar::new()
    }
}

impl Sidebar {
    /// Whether the sidebar is hidden: the field `hidden`.
    pub closed spec fn concealed(self) -> bool {
        self.hidden
    }

    /// Whether a reload of the configuration is under way.
    pub closed spec fn reloading(self) -> bool {
        self.reloading_config
    }

    /// A sidebar that is shown and reloads nothing.
    pub fn new() -> (sidebar: Sidebar)
        ensures
            !sidebar.concealed(),
            !sidebar.reloading(),
    {
        Sidebar { hidden: false, reloading_config: false }
    }

    /// Hides the sidebar if it is shown, and shows it if it is hidden.
    pub fn toggle_visibility(&mut self)
        ensures
            final(self).concealed() == !old(self).concealed(),
            final(self).reloading() == old(self).reloading(),
    {
        self.hidden = !self.hidden;
    }

    pub fn is_hidden(&self) -> (b: bool)
        ensures
            b == self.concealed(),
    {
        self.hidden
    }

    pub fn is_reloading(&self) -> (b: bool)
        ensures
            b == self.reloading(),
    {
        self.reloading_config
    }

    /// Takes in a message. A reload begins with `ReloadConfigFile` and ends
    /// with `ReloadComplete`; every other message leaves the sidebar as it
    /// is and is passed on as the event of its name.
    pub fn update<C>(&mut self, message: Message<C>) -> (r: (Command, Option<Event<C>>))
        ensures
            final(self).concealed() == old(self).concealed(),
            final(self).reloading() == (match message {
                Message::ReloadConfigFile => true,
                Message::ReloadComplete => false,
                _ => old(self).reloading(),
            }),
            r.0 == command_of(message),
            r.1 == event_of(message),
    {
        match message {
            Message::New(buffer) => (Command::Idle, Some(Event::New(buffer))),
            Message::Popout(buffer) => (Command::Idle, Some(Event::Popout(buffer))),
            Message::Focus(pane) => (Command::Idle, Some(Event::Focus(pane))),
            Message::Replace(buffer) => (Command::Idle, Some(Event::Replace(buffer))),
            Message::Close(pane) => (Command::Idle, Some(Event::Close(pane))),
            Message::Swap(pane) => (Command::Idle, Some(Event::Swap(pane))),
            Message::Leave(buffer) => (Command::Idle, Some(Event::Leave(buffer))),
            Message::ToggleInternalBuffer(buffer) => (
                Command::Idle,
                Some(Event::ToggleInternalBuffer(buffer)),
            ),
            Message::ToggleCommandBar => (Command::Idle, Some(Event::ToggleCommandBar)),
            Message::ToggleThemeEditor => (Command::Idle, Some(Event::ToggleThemeEditor)),
            Message::ReloadConfigFile => {
                self.reloading_config = true;
                (Command::LoadConfig, None)
            },
            Message::ConfigReloaded(outcome) => (
                Command::CompleteReloadAfter(CONFIG_RELOAD_DELAY),
                Some(Event::ConfigReloaded(outcome)),
            ),
            Message::OpenReleaseWebsite => (Command::Idle, Some(Event::OpenReleaseWebsite)),
            Message::ReloadComplete => {
                self.reloading_config = false;
                (Command::Idle, None)
            },
            Message::OpenDocumentation => (Command::Idle, Some(Event::OpenDocumentation)),
            Message::MarkAsRead(buffer) => (Command::Idle, Some(Event::MarkAsRead(buffer))),
            Message::MarkServerAsRead(server) => (
                Command::Idle,
                Some(Event::MarkServerAsRead(server)),
            ),
            Message::OpenConfigFile => (Command::Idle, Some(Event::OpenConfigFile)),
        }
    }
}

/// An entry of the user menu.
#[derive(Clone, Copy, Debug, PartialEq, Eq, Structural)]
pub enum Menu {
    RefreshConfig,
    CommandBar,
    ThemeEditor,
    Highlights,
    Logs,
    FileTransfers,
    Version,
    HorizontalRule,
    Documentation,
    OpenConfigFile,
}

impl Menu {
    /// The entries of the user menu, from top to bottom.
    pub open spec fn entries() -> Seq<Menu> {
        seq![
            Menu::Version,
            Menu::HorizontalRule,
            Menu::CommandBar,
            Menu::Documentation,
            Menu::FileTransfers,
            Menu::Highlights,
            Menu::Logs,
            Menu::OpenConfigFile,
            Menu::RefreshConfig,
            Menu::ThemeEditor,
        ]
    }

    /// The entries of the user menu, from top to bottom.
    pub fn list() -> (menu: Vec<Menu>)
        ensures
            menu@ == Menu::entries(),
    {
        let menu = vec![
            Menu::Version,
            Menu::HorizontalRule,
            Menu::CommandBar,
            Menu::Documentation,
            Menu::FileTransfers,
            Menu::Highlights,
            Menu::Logs,
            Menu::OpenConfigFile,
            Menu::RefreshConfig,
            Menu::ThemeEditor,
        ];
        assert(menu@ =~= Menu::entries());
        menu
    }
}

/// An entry of the menu that a buffer's button opens.
#[derive(Clone, Copy, Debug, PartialEq, Eq, Structural)]
pub enum Entry {
    MarkServerAsRead,
    MarkAsRead,
    NewPane,
    Popout,
    Replace,
    Close(PaneId),
    Swap(PaneId),
    Leave,
}

impl Entry {
    /// The entries for a buffer: for a server's own buffer, to mark the
    /// whole server as read; then, for a buffer that no pane shows, to mark
    /// it as read, to open it in the three ways, and to leave; for one that
    /// the pane `open` shows, to close that pane if it is not the only
    /// one, to swap if it is not the focused one, and to leave.
    pub open spec fn entries_for(
        server_buffer: bool,
        num_panes: usize,
        open: Option<PaneId>,
        focus: PaneId,
    ) -> Seq<Entry> {
        (if server_buffer {
            seq![Entry::MarkServerAsRead]
        } else {
            Seq::<Entry>::empty()
        }) + (match open {
            None => seq![
                Entry::MarkAsRead,
                Entry::NewPane,
                Entry::Popout,
                Entry::Replace,
                Entry::Leave,
            ],
            Some(pane) => (if num_panes > 1 {
                seq![Entry::Close(pane)]
            } else {
                Seq::<Entry>::empty()
            }) + (if pane != focus {
                seq![Entry::Swap(pane)]
            } else {
                Seq::<Entry>::empty()
            }) + seq![Entry::Leave],
        })
    }

    /// The entries of the menu that the button of `buffer` opens.
    pub fn list(buffer: &Upstream, num_panes: usize, open: Option<PaneId>, focus: PaneId) -> (entries:
        Vec<Entry>)
        ensures
            entries@ == Entry::entries_for(buffer is Server, num_panes, open, focus),
    {
        let mut entries: Vec<Entry> = Vec::new();
        if buffer.is_server() {
            entries.push(Entry::MarkServerAsRead);
        }
        match open {
            None => {
                entries.push(Entry::MarkAsRead);
                entries.push(Entry::NewPane);
                entries.push(Entry::Popout);
                entries.push(Entry::Replace);
                entries.push(Entry::Leave);
            },
            Some(pane) => {
                if num_panes > 1 {
                    entries.push(Entry::Close(pane));
                }
                if pane.window != focus.window || pane.pane != focus.pane {
                    entries.push(Entry::Swap(pane));
                }
                entries.push(Entry::Leave);
            },
        }
        assert(entries@ =~= Entry::entries_for(buffer is Server, num_panes, open, focus));
        entries
    }
}

} // verus!
