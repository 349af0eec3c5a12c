//! What the sidebar shows: the rows of buffers in their order, what each
//! button looks like and sends, and what the menus hold. The caller turns
//! this into widgets.

use vstd::prelude::*;
use crate::sidebar::{Entry, Internal, Menu, Message, PaneId, Upstream};

verus! {

/// The edge of the window that the sidebar stands at.
#[derive(Clone, Copy, Debug, PartialEq, Eq, Structural)]
pub enum Position {
    Left,
    Right,
    Top,
    Bottom,
}

impl Position {
    /// Whether the sidebar lies along the top or the bottom.
    pub open spec fn horizontal(self) -> bool {
        self == Position::Top || self == Position::Bottom
    }

    pub fn is_horizontal(&self) -> (b: bool)
        ensures
            b == self.horizontal(),
    {
        match self {
            Position::Top | Position::Bottom => true,
            Position::Left | Position::Right => false,
        }
    }
}

/// How a buffer with unread messages is marked.
#[derive(Clone, Copy, Debug, PartialEq, Eq, Structural)]
pub enum UnreadIndicator {
    Dot,
    Title,
    Off,
}

/// What a press on the button of a buffer that no pane shows does.
#[derive(Clone, Copy, Debug, PartialEq, Eq, Structural)]
pub enum BufferAction {
    NewPane,
    ReplacePane,
    NewWindow,
}

/// What a press on the button of the focused buffer does.
#[derive(Clone, Copy, Debug, PartialEq, Eq, Structural)]
pub enum BufferFocusedAction {
    ClosePane,
}

/// The order in which the servers are listed.
#[derive(Clone, Copy, Debug, PartialEq, Eq, Structural)]
pub enum OrderBy {
    /// As the clients list them.
    Alpha,
    /// As the configuration lists them, then the rest.
    Config,
}

/// The colour of a text or an icon, by its part in the theme.
#[derive(Clone, Copy, Debug, PartialEq, Eq, Structural)]
pub enum Tone {
    Primary,
    Secondary,
    Tertiary,
    Unread,
    Error,
}

/// The icon of a menu entry.
#[derive(Clone, Copy, Debug, PartialEq, Eq, Structural)]
pub enum Icon {
    Refresh,
    Search,
    FileTransfer,
    Highlights,
    Logs,
    ThemeEditor,
    Megaphone,
    Documentation,
    Config,
}

/// The key binding that a menu entry shows.
#[derive(Clone, Copy, Debug, PartialEq, Eq, Structural)]
pub enum Shortcut {
    ReloadConfiguration,
    CommandBar,
    FileTransfers,
    Highlights,
    Logs,
    ThemeEditor,
}

/// Space around the sidebar, in pixels.
#[derive(Clone, Copy, Debug, PartialEq, Eq, Structural)]
pub struct Padding {
    pub top: u16,
    pub right: u16,
    pub bottom: u16,
    pub left: u16,
}

/// The padding of a sidebar at `position`: none on the side that faces the
/// panes, six pixels on the others, and eight at the top, or at the bottom
/// of a sidebar that stands there.
pub open spec fn padding_at(position: Position) -> Padding {
    match position {
        Position::Left => Padding { top: 8, right: 0, bottom: 6, left: 6 },
        Position::Right => Padding { top: 8, right: 6, bottom: 6, left: 0 },
        Position::Top => Padding { top: 8, right: 6, bottom: 0, left: 6 },
        Position::Bottom => Padding { top: 0, right: 6, bottom: 8, left: 6 },
    }
}

/// The padding of a sidebar at `position`.
pub fn padding_for(position: Position) -> (padding: Padding)
    ensures
        padding == padding_at(position),
{
    match position {
        Position::Left => Padding { top: 8, right: 0, bottom: 6, left: 6 },
        Position::Right => Padding { top: 8, right: 6, bottom: 6, left: 0 },
        Position::Top => Padding { top: 8, right: 6, bottom: 0, left: 6 },
        Position::Bottom => Padding { top: 0, right: 6, bottom: 8, left: 6 },
    }
}

/// Whether the menu button carries a dot: there is a newer version, or
/// there are file transfers.
pub fn show_notification_dot(version_is_old: bool, transfers_empty: bool) -> (dot: bool)
    ensures
        dot == (version_is_old || !transfers_empty),
{
    version_is_old || !transfers_empty
}

/// How an entry of the user menu is shown.
#[derive(Debug, Clone, PartialEq, Eq)]
pub enum MenuItem<C> {
    /// A button.
    Button { label: &'static str, shortcut: Option<Shortcut>, icon: Icon, tone: Tone, message: Message<C> },
    /// A line across the menu.
    Rule,
    /// The program's name and its version, in the secondary tone.
    VersionLabel,
}

impl Menu {
    /// How the entry is shown. The entry for file transfers stands out while
    /// there are transfers; the entry for the version is a button to the
    /// release page if there is a newer version, and a label if not.
    pub open spec fn shown<C>(self, version_is_old: bool, transfers_empty: bool) -> MenuItem<C> {
        match self {
            Menu::RefreshConfig => MenuItem::Button {
                label: "Reload config file",
                shortcut: Some(Shortcut::ReloadConfiguration),
                icon: Icon::Refresh,
                tone: Tone::Primary,
                message: Message::ReloadConfigFile,
            },
            Menu::CommandBar => MenuItem::Button {
                label: "Command Bar",
                shortcut: Some(Shortcut::CommandBar),
                icon: Icon::Search,
                tone: Tone::Primary,
                message: Message::ToggleCommandBar,
            },
            Menu::FileTransfers => MenuItem::Button {
                label: "File Transfers",
                shortcut: Some(Shortcut::FileTransfers),
                icon: Icon::FileTransfer,
                tone: if transfers_empty {
                    Tone::Primary
                } else {
                    Tone::Tertiary
                },
                message: Message::ToggleInternalBuffer(Internal::FileTransfers),
            },
            Menu::Highlights => MenuItem::Button {
                label: "Highlights",
                shortcut: Some(Shortcut::Highlights),
                icon: Icon::Highlights,
                tone: Tone::Primary,
                message: Message::ToggleInternalBuffer(Internal::Highlights),
            },
            Menu::Logs => MenuItem::Button {
                label: "Logs",
                shortcut: Some(Shortcut::Logs),
                icon: Icon::Logs,
                tone: Tone::Primary,
                message: Message::ToggleInternalBuffer(Internal::Logs),
            },
            Menu::ThemeEditor => MenuItem::Button {
                label: "Theme Editor",
                shortcut: Some(Shortcut::ThemeEditor),
                icon: Icon::ThemeEditor,
                tone: Tone::Primary,
                message: Message::ToggleThemeEditor,
            },
            Menu::HorizontalRule => MenuItem::Rule,
            Menu::Version => if version_is_old {
                MenuItem::Button {
                    label: "New version available",
                    shortcut: None,
                    icon: Icon::Megaphone,
                    tone: Tone::Tertiary,
                    message: Message::OpenReleaseWebsite,
                }
            } else {
                MenuItem::VersionLabel
            },
            Menu::Documentation => MenuItem::Button {
                label: "Documentation",
                shortcut: None,
                icon: Icon::Documentation,
                tone: Tone::Primary,
                message: Message::OpenDocumentation,
            },
            Menu::OpenConfigFile => MenuItem::Button {
                label: "Open config file",
                shortcut: None,
                icon: Icon::Config,
                tone: Tone::Primary,
                message: Message::OpenConfigFile,
            },
        }
    }

    /// How the entry is shown.
    pub fn item<C>(&self, version_is_old: bool, transfers_empty: bool) -> (item: MenuItem<C>)
        ensures
            item == self.shown::<C>(version_is_old, transfers_empty),
    {
        match self {
            Menu::RefreshConfig => MenuItem::Button {
                label: "Reload config file",
                shortcut: Some(Shortcut::ReloadConfiguration),
                icon: Icon::Refresh,
                tone: Tone::Primary,
                message: Message::ReloadConfigFile,
            },
            Menu::CommandBar => MenuItem::Button {
                label: "Command Bar",
                shortcut: Some(Shortcut::CommandBar),
                icon: Icon::Search,
                tone: Tone::Primary,
                message: Message::ToggleCommandBar,
            },
            Menu::FileTransfers => MenuItem::Button {
                label: "File Transfers",
                shortcut: Some(Shortcut::FileTransfers),
                icon: Icon::FileTransfer,
                tone: if transfers_empty {
                    Tone::Primary
                } else {
                    Tone::Tertiary
                },
                message: Message::ToggleInternalBuffer(Internal::FileTransfers),
            },
            Menu::Highlights => MenuItem::Button {
                label: "Highlights",
                shortcut: Some(Shortcut::Highlights),
                icon: Icon::Highlights,
                tone: Tone::Primary,
                message: Message::ToggleInternalBuffer(Internal::Highlights),
            },
            Menu::Logs => MenuItem::Button {
                label: "Logs",
                shortcut: Some(Shortcut::Logs),
                icon: Icon::Logs,
                tone: Tone::Primary,
                message: Message::ToggleInternalBuffer(Internal::Logs),
            },
            Menu::ThemeEditor => MenuItem::Button {
                label: "Theme Editor",
                shortcut: Some(Shortcut::ThemeEditor),
                icon: Icon::ThemeEditor,
                tone: Tone::Primary,
                message: Message::ToggleThemeEditor,
            },
            Menu::HorizontalRule => MenuItem::Rule,
            Menu::Version => if version_is_old {
                MenuItem::Button {
                    label: "New version available",
                    shortcut: None,
                    icon: Icon::Megaphone,
                    tone: Tone::Tertiary,
                    message: Message::OpenReleaseWebsite,
                }
            } else {
                MenuItem::VersionLabel
            },
            Menu::Documentation => MenuItem::Button {
                label: "Documentation",
                shortcut: None,
                icon: Icon::Documentation,
                tone: Tone::Primary,
                message: Message::OpenDocumentation,
            },
            Menu::OpenConfigFile => MenuItem::Button {
                label: "Open config file",
                shortcut: None,
                icon: Icon::Config,
                tone: Tone::Primary,
                message: Message::OpenConfigFile,
            },
        }
    }
}

/// A pane and the buffer it shows, if it shows one of a server.
#[derive(Debug, Clone, PartialEq, Eq)]
pub struct Pane {
    pub id: PaneId,
    pub upstream: Option<Upstream>,
}

impl Pane {
    /// Whether the pane shows `buffer`.
    pub open spec fn shows(self, buffer: Upstream) -> bool {
        self.upstream matches Some(upstream) && upstream.same(buffer)
    }

    /// Whether the pane shows `buffer` and, where `focus` names a pane, is
    /// that pane.
    pub open spec fn shows_in(self, buffer: Upstream, focus: Option<PaneId>) -> bool {
        self.shows(buffer) && (focus matches Some(focus) ==> self.id == focus)
    }

    pub fn is_showing(&self, buffer: &Upstream, focus: Option<PaneId>) -> (b: bool)
        ensures
            b == self.shows_in(*buffer, focus),
    {
        let focused = match focus {
            Some(focus) => self.id.window == focus.window && self.id.pane == focus.pane,
            None => true,
        };
        match &self.upstream {
            Some(upstream) => focused && upstream.equals(buffer),
            None => false,
        }
    }
}

/// The first of `panes` that shows `buffer`, and is the pane `focus` where
/// one is named; none if there is no such pane.
pub fn find_pane(panes: &Vec<Pane>, buffer: &Upstream, focus: Option<PaneId>) -> (found: Option<
    PaneId,
>)
    ensures
        match found {
            Some(id) => exists|i: int|
                0 <= i < panes@.len() && (#[trigger] panes@[i]).shows_in(*buffer, focus)
                    && panes@[i].id == id && forall|j: int|
                    0 <= j < i ==> !(#[trigger] panes@[j]).shows_in(*buffer, focus),
            None => forall|j: int|
                0 <= j < panes@.len() ==> !(#[trigger] panes@[j]).shows_in(*buffer, focus),
        },
{
    let mut i: usize = 0;
    while i < panes.len()
        invariant
            i <= panes.len(),
            forall|j: int| 0 <= j < i ==> !(#[trigger] panes@[j]).shows_in(*buffer, focus),
        decreases panes.len() - i,
    {
        if panes[i].is_showing(buffer, focus) {
            assert(panes@[i as int].shows_in(*buffer, focus));
            return Some(panes[i].id);
        }
        i = i + 1;
    }
    None
}

/// The message that a press on a buffer's button sends. On the focused
/// buffer it closes the pane if that is configured, and else focuses it
/// again; on a buffer that a pane shows it focuses that pane; on one that
/// no pane shows it opens the buffer as configured.
pub open spec fn pressed<C>(
    focused: Option<PaneId>,
    open: Option<PaneId>,
    focused_action: Option<BufferFocusedAction>,
    action: BufferAction,
    buffer: Upstream,
) -> Message<C> {
    match focused {
        Some(pane) => match focused_action {
            Some(BufferFocusedAction::ClosePane) => Message::Close(pane),
            None => Message::Focus(pane),
        },
        None => match open {
            Some(pane) => Message::Focus(pane),
            None => match action {
                BufferAction::NewPane => Message::New(buffer),
                BufferAction::ReplacePane => Message::Replace(buffer),
                BufferAction::NewWindow => Message::Popout(buffer),
            },
        },
    }
}

/// The message that a press on a buffer's button sends.
pub fn press<C>(
    focused: Option<PaneId>,
    open: Option<PaneId>,
    focused_action: Option<BufferFocusedAction>,
    action: BufferAction,
    buffer: Upstream,
) -> (message: Message<C>)
    ensures
        message == pressed::<C>(focused, open, focused_action, action, buffer),
{
    match focused {
        Some(pane) => match focused_action {
            Some(BufferFocusedAction::ClosePane) => Message::Close(pane),
            None => Message::Focus(pane),
        },
        None => match open {
            Some(pane) => Message::Focus(pane),
            None => match action {
                BufferAction::NewPane => Message::New(buffer),
                BufferAction::ReplacePane => Message::Replace(buffer),
                BufferAction::NewWindow => Message::Popout(buffer),
            },
        },
    }
}

/// Whether a dot marks the buffer as unread.
pub open spec fn marked_by_dot(has_unread: bool, indicator: UnreadIndicator) -> bool {
    has_unread && indicator == UnreadIndicator::Dot
}

/// Whether the title marks the buffer as unread.
pub open spec fn marked_by_title(has_unread: bool, indicator: UnreadIndicator) -> bool {
    has_unread && indicator == UnreadIndicator::Title
}

/// The width before the title of a channel or a query: in a horizontal
/// sidebar five pixels beside a dot and none without one; in a vertical one
/// eleven beside a dot and sixteen without.
pub open spec fn spacing(horizontal: bool, dot: bool) -> u16 {
    if horizontal {
        if dot {
            5
        } else {
            0
        }
    } else {
        if dot {
            11
        } else {
            16
        }
    }
}

/// The tone of a server's icon: the error tone while it is not connected,
/// the unread tone if a dot marks it, the primary tone else.
pub open spec fn icon_tone(connected: bool, dot: bool) -> Tone {
    if connected {
        if dot {
            Tone::Unread
        } else {
            Tone::Primary
        }
    } else {
        Tone::Error
    }
}

/// How the button of a buffer looks.
#[derive(Clone, Copy, Debug, PartialEq, Eq, Structural)]
pub struct Looks {
    /// Whether a dot marks the buffer as unread.
    pub dot: bool,
    /// Pixels before the title of a channel or a query.
    pub spacing: u16,
    /// The tone of the title.
    pub title: Tone,
    /// The tone of the icon of a server.
    pub icon: Tone,
}

/// How the button of a buffer looks.
pub fn looks(
    connected: bool,
    position: Position,
    indicator: UnreadIndicator,
    has_unread: bool,
) -> (l: Looks)
    ensures
        l.dot == marked_by_dot(has_unread, indicator),
        l.spacing == spacing(position.horizontal(), l.dot),
        l.title == (if marked_by_title(has_unread, indicator) {
            Tone::Unread
        } else {
            Tone::Primary
        }),
        l.icon == icon_tone(connected, l.dot),
{
    let dot = has_unread && match indicator {
        UnreadIndicator::Dot => true,
        _ => false,
    };
    let by_title = has_unread && match indicator {
        UnreadIndicator::Title => true,
        _ => false,
    };
    let spacing: u16 = if position.is_horizontal() {
        if dot {
            5
        } else {
            0
        }
    } else {
        if dot {
            11
        } else {
            16
        }
    };
    Looks {
        dot,
        spacing,
        title: if by_title {
            Tone::Unread
        } else {
            Tone::Primary
        },
        icon: if connected {
            if dot {
                Tone::Unread
            } else {
                Tone::Primary
            }
        } else {
            Tone::Error
        },
    }
}

/// The words of an entry of a buffer's menu.
pub open spec fn entry_label(entry: Entry, buffer: Upstream) -> &'static str {
    match entry {
        Entry::MarkServerAsRead => "Mark entire server as read",
        Entry::MarkAsRead => if buffer is Server {
            "Mark server buffer as read"
        } else {
            "Mark as read"
        },
        Entry::NewPane => "Open in new pane",
        Entry::Popout => "Open in new window",
        Entry::Replace => "Replace current pane",
        Entry::Close(_) => "Close pane",
        Entry::Swap(_) => "Swap with current pane",
        Entry::Leave => match buffer {
            Upstream::Server(_) => "Leave server",
            Upstream::Channel(_, _) => "Leave channel",
            Upstream::Query(_, _) => "Close query",
        },
    }
}

/// The message that an entry of a buffer's menu sends; none where there is
/// nothing to mark as read.
pub open spec fn entry_message<C>(
    entry: Entry,
    buffer: Upstream,
    server_has_unread: bool,
    has_unread: bool,
) -> Option<Message<C>> {
    match entry {
        Entry::MarkServerAsRead => if server_has_unread {
            Some(Message::MarkServerAsRead(buffer.server_name()))
        } else {
            None
        },
        Entry::MarkAsRead => if has_unread {
            Some(Message::MarkAsRead(buffer))
        } else {
            None
        },
        Entry::NewPane => Some(Message::New(buffer)),
        Entry::Popout => Some(Message::Popout(buffer)),
        Entry::Replace => Some(Message::Replace(buffer)),
        Entry::Close(pane) => Some(Message::Close(pane)),
        Entry::Swap(pane) => Some(Message::Swap(pane)),
        Entry::Leave => Some(Message::Leave(buffer)),
    }
}

impl Entry {
    /// The words of the entry in the menu of `buffer`.
    pub fn label(&self, buffer: &Upstream) -> (label: &'static str)
        ensures
            label == entry_label(*self, *buffer),
    {
        match self {
            Entry::MarkServerAsRead => "Mark entire server as read",
            Entry::MarkAsRead => if buffer.is_server() {
                "Mark server buffer as read"
            } else {
                "Mark as read"
            },
            Entry::NewPane => "Open in new pane",
            Entry::Popout => "Open in new window",
            Entry::Replace => "Replace current pane",
            Entry::Close(_) => "Close pane",
            Entry::Swap(_) => "Swap with current pane",
            Entry::Leave => match buffer {
                Upstream::Server(_) => "Leave server",
                Upstream::Channel(_, _) => "Leave channel",
                Upstream::Query(_, _) => "Close query",
            },
        }
    }

    /// The message that the entry sends in the menu of `buffer`.
    pub fn message<C>(&self, buffer: &Upstream, server_has_unread: bool, has_unread: bool) -> (message:
        Option<Message<C>>)
        ensures
            message == entry_message::<C>(*self, *buffer, server_has_unread, has_unread),
    {
        match self {
            Entry::MarkServerAsRead => if server_has_unread {
                Some(Message::MarkServerAsRead(buffer.server().clone()))
            } else {
                None
            },
            Entry::MarkAsRead => if has_unread {
                Some(Message::MarkAsRead(buffer.duplicate()))
            } else {
                None
            },
            Entry::NewPane => Some(Message::New(buffer.duplicate())),
            Entry::Popout => Some(Message::Popout(buffer.duplicate())),
            Entry::Replace => Some(Message::Replace(buffer.duplicate())),
            Entry::Close(pane) => Some(Message::Close(*pane)),
            Entry::Swap(pane) => Some(Message::Swap(*pane)),
            Entry::Leave => Some(Message::Leave(buffer.duplicate())),
        }
    }
}

/// Whether a buffer's button opens a menu: it has entries, and the server is
/// connected.
pub fn has_menu(entries: &Vec<Entry>, connected: bool) -> (b: bool)
    ensures
        b == (entries@.len() > 0 && connected),
{
    !(entries.len() == 0 || !connected)
}

/// Whether `name` is one of `names`.
pub open spec fn listed(names: Seq<String>, name: String) -> bool {
    exists|i: int| 0 <= i < names.len() && (#[trigger] names[i])@ == name@
}

/// Whether `name` is one of `names`.
pub fn is_listed(names: &Vec<String>, name: &String) -> (b: bool)
    ensures
        b == listed(names@, *name),
{
    let mut i: usize = 0;
    while i < names.len()
        invariant
            i <= names.len(),
            forall|k: int| 0 <= k < i ==> (#[trigger] names@[k])@ != name@,
        decreases names.len() - i,
    {
        if names[i] == *name {
            return true;
        }
        i = i + 1;
    }
    false
}

/// The servers in the order in which they are listed: as the clients list
/// them, or the configured ones first, as configured, and then those that
/// the configuration does not hold, as the clients list them.
pub open spec fn ordered(order_by: OrderBy, configured: Seq<String>, clients: Seq<String>) -> Seq<
    String,
> {
    match order_by {
        OrderBy::Alpha => clients,
        OrderBy::Config => configured + clients.filter(|name: String| !listed(configured, name)),
    }
}

/// The servers in the order in which they are listed.
pub fn server_order(order_by: OrderBy, configured: &Vec<String>, clients: &Vec<String>) -> (order:
    Vec<String>)
    ensures
        order@ == ordered(order_by, configured@, clients@),
{
    let ghost rest = |name: String| !listed(configured@, name);
    let mut order: Vec<String> = Vec::new();
    match order_by {
        OrderBy::Alpha => {},
        OrderBy::Config => {
            let mut i: usize = 0;
            while i < configured.len()
                invariant
                    i <= configured.len(),
                    order@ == configured@.take(i as int),
                decreases configured.len() - i,
            {
                order.push(configured[i].clone());
                assert(order@ =~= configured@.take(i as int + 1));
                i = i + 1;
            }
            assert(configured@.take(configured.len() as int) =~= configured@);
        },
    }
    let ghost head = order@;
    let mut i: usize = 0;
    proof {
        assert(clients@.take(0).filter(rest) =~= Seq::<String>::empty());
        assert(clients@.take(0) =~= Seq::<String>::empty());
        assert(order@ =~= head + Seq::<String>::empty());
    }
    while i < clients.len()
        invariant
            i <= clients.len(),
            rest == (|name: String| !listed(configured@, name)),
            head == (match order_by {
                OrderBy::Alpha => Seq::<String>::empty(),
                OrderBy::Config => configured@,
            }),
            order@ == head + (match order_by {
                OrderBy::Alpha => clients@.take(i as int),
                OrderBy::Config => clients@.take(i as int).filter(rest),
            }),
        decreases clients.len() - i,
    {
        proof {
            assert(clients@.take(i as int + 1) =~= clients@.take(i as int).push(clients@[i as int]));
            clients@.take(i as int).lemma_filter_push(clients@[i as int], rest);
        }
        let keep = match order_by {
            OrderBy::Alpha => true,
            OrderBy::Config => !is_listed(configured, &clients[i]),
        };
        if keep {
            order.push(clients[i].clone());
        }
        proof {
            assert(order@ =~= head + (match order_by {
                OrderBy::Alpha => clients@.take(i as int + 1),
                OrderBy::Config => clients@.take(i as int + 1).filter(rest),
            }));
        }
        i = i + 1;
    }
    proof {
        assert(clients@.take(clients.len() as int) =~= clients@);
        assert(Seq::<String>::empty() + clients@ =~= clients@);
    }
    order
}

/// A channel or a query of a server, by its name, and whether it has unread
/// messages.
#[derive(Debug, Clone, PartialEq, Eq)]
pub struct Listed {
    pub name: String,
    pub has_unread: bool,
}

/// What the sidebar is told of one server.
#[derive(Debug, Clone, PartialEq, Eq)]
pub struct ServerView {
    pub name: String,
    /// Whether the connection to the server stands.
    pub ready: bool,
    /// Whether any buffer of the server has unread messages.
    pub server_has_unread: bool,
    /// Whether the buffer of the server itself has unread messages.
    pub has_unread: bool,
    /// The channels, where the connection stands.
    pub channels: Vec<Listed>,
    /// The queries, where the connection stands.
    pub queries: Vec<Listed>,
}

/// A row of the sidebar.
#[derive(Debug, Clone, PartialEq, Eq)]
pub enum Row {
    /// The button of a buffer.
    Buffer { upstream: Upstream, connected: bool, server_has_unread: bool, has_unread: bool },
    /// A line between two servers in a horizontal sidebar.
    Rule,
    /// A gap after a server in a vertical sidebar.
    Gap,
}

/// The rows of the channels of a server.
pub open spec fn channel_rows(server: ServerView) -> Seq<Row> {
    Seq::new(
        server.channels@.len(),
        |i: int|
            Row::Buffer {
                upstream: Upstream::Channel(server.name, server.channels@[i].name),
                connected: true,
                server_has_unread: server.server_has_unread,
                has_unread: server.channels@[i].has_unread,
            },
    )
}

/// The rows of the queries of a server.
pub open spec fn query_rows(server: ServerView) -> Seq<Row> {
    Seq::new(
        server.queries@.len(),
        |i: int|
            Row::Buffer {
                upstream: Upstream::Query(server.name, server.queries@[i].name),
                connected: true,
                server_has_unread: server.server_has_unread,
                has_unread: server.queries@[i].has_unread,
            },
    )
}

/// What follows the buffers of a connected server: in a horizontal sidebar
/// a line unless the server is the last of the clients, in a vertical one a
/// gap.
pub open spec fn separator(horizontal: bool, place: int, clients: int) -> Seq<Row> {
    if horizontal {
        if place < clients {
            seq![Row::Rule]
        } else {
            Seq::<Row>::empty()
        }
    } else {
        seq![Row::Gap]
    }
}

/// The rows of one server, which is the `place`-th of `clients`: for a
/// server that is not connected its own buffer alone; for a connected one
/// its own buffer, its channels, its queries and what separates it from the
/// next.
pub open spec fn server_rows(server: ServerView, horizontal: bool, place: int, clients: int) -> Seq<
    Row,
> {
    let own = seq![
        Row::Buffer {
            upstream: Upstream::Server(server.name),
            connected: server.ready,
            server_has_unread: server.server_has_unread,
            has_unread: server.has_unread,
        },
    ];
    if server.ready {
        own + channel_rows(server) + query_rows(server) + separator(horizontal, place, clients)
    } else {
        own
    }
}

/// The rows of the servers, one server after the other.
pub open spec fn rows_of(servers: Seq<ServerView>, horizontal: bool, clients: int) -> Seq<Row>
    decreases servers.len(),
{
    if servers.len() == 0 {
        Seq::<Row>::empty()
    } else {
        rows_of(servers.drop_last(), horizontal, clients) + server_rows(
            servers.last(),
            horizontal,
            servers.len() as int,
            clients,
        )
    }
}

fn push_listed(rows: &mut Vec<Row>, server: &ServerView, queries: bool)
    ensures
        final(rows)@ == old(rows)@ + (if queries {
            query_rows(*server)
        } else {
            channel_rows(*server)
        }),
{
    let list = if queries {
        &server.queries
    } else {
        &server.channels
    };
    let ghost all = if queries {
        query_rows(*server)
    } else {
        channel_rows(*server)
    };
    let mut i: usize = 0;
    proof {
        assert(rows@ =~= old(rows)@ + all.take(0));
    }
    while i < list.len()
        invariant
            i <= list.len(),
            list@ == (if queries {
                server.queries@
            } else {
                server.channels@
            }),
            all == (if queries {
                query_rows(*server)
            } else {
                channel_rows(*server)
            }),
            rows@ == old(rows)@ + all.take(i as int),
        decreases list.len() - i,
    {
        let upstream = if queries {
            Upstream::Query(server.name.clone(), list[i].name.clone())
        } else {
            Upstream::Channel(server.name.clone(), list[i].name.clone())
        };
        rows.push(
            Row::Buffer {
                upstream,
                connected: true,
                server_has_unread: server.server_has_unread,
                has_unread: list[i].has_unread,
            },
        );
        proof {
            assert(rows@ =~= old(rows)@ + all.take(i as int + 1));
        }
        i = i + 1;
    }
    proof {
        assert(all.take(list.len() as int) =~= all);
    }
}

/// The rows of the sidebar for `servers`, which are the clients that have a
/// state, in the order in which they are listed; `clients` is the number of
/// all clients.
pub fn rows(servers: &Vec<ServerView>, horizontal: bool, clients: usize) -> (rows: Vec<Row>)
    ensures
        rows@ == rows_of(servers@, horizontal, clients as int),
{
    let mut rows: Vec<Row> = Vec::new();
    let mut i: usize = 0;
    proof {
        assert(servers@.take(0) =~= Seq::<ServerView>::empty());
    }
    while i < servers.len()
        invariant
            i <= servers.len(),
            rows@ == rows_of(servers@.take(i as int), horizontal, clients as int),
        decreases servers.len() - i,
    {
        let server = &servers[i];
        let ghost before = rows@;
        rows.push(
            Row::Buffer {
                upstream: Upstream::Server(server.name.clone()),
                connected: server.ready,
                server_has_unread: server.server_has_unread,
                has_unread: server.has_unread,
            },
        );
        if server.ready {
            push_listed(&mut rows, server, false);
            push_listed(&mut rows, server, true);
            if horizontal {
                if i < clients && i + 1 < clients {
                    rows.push(Row::Rule);
                }
            } else {
                rows.push(Row::Gap);
            }
        }
        proof {
            let next = servers@.take(i as int + 1);
            assert(next.drop_last() =~= servers@.take(i as int));
            assert(next.last() == servers@[i as int]);
            assert(rows@ =~= before + server_rows(
                servers@[i as int],
                horizontal,
                i as int + 1,
                clients as int,
            ));
        }
        i = i + 1;
    }
    proof {
        assert(servers@.take(servers.len() as int) =~= servers@);
    }
    rows
}

} // verus!
