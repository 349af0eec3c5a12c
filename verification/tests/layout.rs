use file_transfer::layout::{
    find_pane, has_menu, is_listed, looks, padding_for, press, rows, server_order,
    show_notification_dot, BufferAction, BufferFocusedAction, Icon, Listed, Looks, MenuItem,
    OrderBy, Padding, Pane, Position, Row, ServerView, Shortcut, Tone, UnreadIndicator,
};
use file_transfer::sidebar::{Entry, Internal, Menu, Message, PaneId, Upstream};

fn server(name: &str) -> Upstream {
    Upstream::Server(name.to_string())
}

fn channel(server: &str, name: &str) -> Upstream {
    Upstream::Channel(server.to_string(), name.to_string())
}

fn query(server: &str, name: &str) -> Upstream {
    Upstream::Query(server.to_string(), name.to_string())
}

fn pane(window: u64, pane: u64) -> PaneId {
    PaneId { window, pane }
}

fn names(list: &[&str]) -> Vec<String> {
    list.iter().map(|s| s.to_string()).collect()
}

#[test]
fn padding_by_position() {
    assert_eq!(padding_for(Position::Left), Padding { top: 8, right: 0, bottom: 6, left: 6 });
    assert_eq!(padding_for(Position::Right), Padding { top: 8, right: 6, bottom: 6, left: 0 });
    assert_eq!(padding_for(Position::Top), Padding { top: 8, right: 6, bottom: 0, left: 6 });
    assert_eq!(padding_for(Position::Bottom), Padding { top: 0, right: 6, bottom: 8, left: 6 });
    assert!(Position::Top.is_horizontal());
    assert!(Position::Bottom.is_horizontal());
    assert!(!Position::Left.is_horizontal());
    assert!(!Position::Right.is_horizontal());
}

#[test]
fn notification_dot_for_new_version_or_transfers() {
    assert!(!show_notification_dot(false, true));
    assert!(show_notification_dot(true, true));
    assert!(show_notification_dot(false, false));
    assert!(show_notification_dot(true, false));
}

#[test]
fn menu_items() {
    assert_eq!(
        Menu::RefreshConfig.item::<u8>(false, true),
        MenuItem::Button {
            label: "Reload config file",
            shortcut: Some(Shortcut::ReloadConfiguration),
            icon: Icon::Refresh,
            tone: Tone::Primary,
            message: Message::ReloadConfigFile,
        }
    );
    assert_eq!(
        Menu::FileTransfers.item::<u8>(false, false),
        MenuItem::Button {
            label: "File Transfers",
            shortcut: Some(Shortcut::FileTransfers),
            icon: Icon::FileTransfer,
            tone: Tone::Tertiary,
            message: Message::ToggleInternalBuffer(Internal::FileTransfers),
        }
    );
    assert!(matches!(
        Menu::FileTransfers.item::<u8>(true, true),
        MenuItem::Button { tone: Tone::Primary, .. }
    ));
    assert_eq!(Menu::HorizontalRule.item::<u8>(true, false), MenuItem::Rule);
    assert_eq!(Menu::Version.item::<u8>(false, false), MenuItem::VersionLabel);
    assert_eq!(
        Menu::Version.item::<u8>(true, true),
        MenuItem::Button {
            label: "New version available",
            shortcut: None,
            icon: Icon::Megaphone,
            tone: Tone::Tertiary,
            message: Message::OpenReleaseWebsite,
        }
    );
    let labels: Vec<&str> = Menu::list()
        .iter()
        .filter_map(|m| match m.item::<u8>(true, true) {
            MenuItem::Button { label, .. } => Some(label),
            _ => None,
        })
        .collect();
    assert_eq!(
        labels,
        vec![
            "New version available",
            "Command Bar",
            "Documentation",
            "File Transfers",
            "Highlights",
            "Logs",
            "Open config file",
            "Reload config file",
            "Theme Editor",
        ]
    );
}

#[test]
fn first_pane_that_shows_the_buffer_is_found() {
    let panes = vec![
        Pane { id: pane(1, 1), upstream: None },
        Pane { id: pane(1, 2), upstream: Some(channel("libera", "#rust")) },
        Pane { id: pane(2, 1), upstream: Some(channel("libera", "#verus")) },
        Pane { id: pane(2, 2), upstream: Some(channel("libera", "#rust")) },
    ];
    let rust = channel("libera", "#rust");
    assert_eq!(find_pane(&panes, &rust, None), Some(pane(1, 2)));
    assert_eq!(find_pane(&panes, &rust, Some(pane(2, 2))), Some(pane(2, 2)));
    assert_eq!(find_pane(&panes, &rust, Some(pane(2, 1))), None);
    assert_eq!(find_pane(&panes, &channel("oftc", "#rust"), None), None);
    assert_eq!(find_pane(&panes, &query("libera", "#rust"), None), None);
    assert_eq!(find_pane(&vec![], &rust, None), None);
}

#[test]
fn press_on_a_buffer() {
    let b = channel("libera", "#rust");
    let f = Some(pane(1, 1));
    let o = Some(pane(1, 2));
    assert_eq!(
        press::<u8>(f, o, Some(BufferFocusedAction::ClosePane), BufferAction::NewPane, channel("libera", "#rust")),
        Message::Close(pane(1, 1))
    );
    assert_eq!(
        press::<u8>(f, o, None, BufferAction::NewPane, channel("libera", "#rust")),
        Message::Focus(pane(1, 1))
    );
    assert_eq!(
        press::<u8>(None, o, Some(BufferFocusedAction::ClosePane), BufferAction::NewPane, channel("libera", "#rust")),
        Message::Focus(pane(1, 2))
    );
    assert_eq!(
        press::<u8>(None, None, None, BufferAction::NewPane, channel("libera", "#rust")),
        Message::New(channel("libera", "#rust"))
    );
    assert_eq!(
        press::<u8>(None, None, None, BufferAction::ReplacePane, channel("libera", "#rust")),
        Message::Replace(channel("libera", "#rust"))
    );
    assert_eq!(press::<u8>(None, None, None, BufferAction::NewWindow, b), Message::Popout(channel("libera", "#rust")));
}

#[test]
fn looks_of_a_button() {
    assert_eq!(
        looks(true, Position::Left, UnreadIndicator::Dot, true),
        Looks { dot: true, spacing: 11, title: Tone::Primary, icon: Tone::Unread }
    );
    assert_eq!(
        looks(true, Position::Left, UnreadIndicator::Dot, false),
        Looks { dot: false, spacing: 16, title: Tone::Primary, icon: Tone::Primary }
    );
    assert_eq!(
        looks(true, Position::Top, UnreadIndicator::Dot, true),
        Looks { dot: true, spacing: 5, title: Tone::Primary, icon: Tone::Unread }
    );
    assert_eq!(
        looks(true, Position::Bottom, UnreadIndicator::Title, true),
        Looks { dot: false, spacing: 0, title: Tone::Unread, icon: Tone::Primary }
    );
    assert_eq!(
        looks(false, Position::Right, UnreadIndicator::Off, true),
        Looks { dot: false, spacing: 16, title: Tone::Primary, icon: Tone::Error }
    );
    assert_eq!(
        looks(false, Position::Right, UnreadIndicator::Dot, true),
        Looks { dot: true, spacing: 11, title: Tone::Primary, icon: Tone::Error }
    );
}

#[test]
fn entry_labels() {
    let s = server("libera");
    let c = channel("libera", "#rust");
    let q = query("libera", "bob");
    assert_eq!(Entry::MarkServerAsRead.label(&s), "Mark entire server as read");
    assert_eq!(Entry::MarkAsRead.label(&s), "Mark server buffer as read");
    assert_eq!(Entry::MarkAsRead.label(&c), "Mark as read");
    assert_eq!(Entry::NewPane.label(&c), "Open in new pane");
    assert_eq!(Entry::Popout.label(&c), "Open in new window");
    assert_eq!(Entry::Replace.label(&c), "Replace current pane");
    assert_eq!(Entry::Close(pane(1, 1)).label(&c), "Close pane");
    assert_eq!(Entry::Swap(pane(1, 1)).label(&c), "Swap with current pane");
    assert_eq!(Entry::Leave.label(&s), "Leave server");
    assert_eq!(Entry::Leave.label(&c), "Leave channel");
    assert_eq!(Entry::Leave.label(&q), "Close query");
}

#[test]
fn entry_messages() {
    let c = channel("libera", "#rust");
    assert_eq!(Entry::MarkServerAsRead.message::<u8>(&c, false, true), None);
    assert_eq!(
        Entry::MarkServerAsRead.message::<u8>(&c, true, false),
        Some(Message::MarkServerAsRead("libera".to_string()))
    );
    assert_eq!(Entry::MarkAsRead.message::<u8>(&c, true, false), None);
    assert_eq!(
        Entry::MarkAsRead.message::<u8>(&c, false, true),
        Some(Message::MarkAsRead(channel("libera", "#rust")))
    );
    assert_eq!(Entry::NewPane.message::<u8>(&c, false, false), Some(Message::New(channel("libera", "#rust"))));
    assert_eq!(Entry::Popout.message::<u8>(&c, false, false), Some(Message::Popout(channel("libera", "#rust"))));
    assert_eq!(Entry::Replace.message::<u8>(&c, false, false), Some(Message::Replace(channel("libera", "#rust"))));
    assert_eq!(Entry::Close(pane(3, 4)).message::<u8>(&c, false, false), Some(Message::Close(pane(3, 4))));
    assert_eq!(Entry::Swap(pane(3, 4)).message::<u8>(&c, false, false), Some(Message::Swap(pane(3, 4))));
    assert_eq!(Entry::Leave.message::<u8>(&c, false, false), Some(Message::Leave(channel("libera", "#rust"))));
}

#[test]
fn menu_needs_entries_and_a_connection() {
    assert!(has_menu(&vec![Entry::Leave], true));
    assert!(!has_menu(&vec![Entry::Leave], false));
    assert!(!has_menu(&vec![], true));
}

#[test]
fn servers_in_their_order() {
    let configured = names(&["oftc", "libera", "absent"]);
    let clients = names(&["efnet", "libera", "oftc", "rizon"]);
    assert_eq!(server_order(OrderBy::Alpha, &configured, &clients), clients);
    assert_eq!(
        server_order(OrderBy::Config, &configured, &clients),
        names(&["oftc", "libera", "absent", "efnet", "rizon"])
    );
    assert_eq!(server_order(OrderBy::Config, &names(&[]), &clients), clients);
    assert_eq!(server_order(OrderBy::Config, &configured, &names(&[])), configured);
    assert!(is_listed(&configured, &"libera".to_string()));
    assert!(!is_listed(&configured, &"Libera".to_string()));
}

fn view(name: &str, ready: bool) -> ServerView {
    ServerView {
        name: name.to_string(),
        ready,
        server_has_unread: ready,
        has_unread: false,
        channels: vec![Listed { name: "#a".to_string(), has_unread: true }],
        queries: vec![Listed { name: "bob".to_string(), has_unread: false }],
    }
}

fn buffer(upstream: Upstream, connected: bool, server_has_unread: bool, has_unread: bool) -> Row {
    Row::Buffer { upstream, connected, server_has_unread, has_unread }
}

#[test]
fn rows_of_a_vertical_sidebar() {
    let servers = vec![view("one", true), view("two", false), view("three", true)];
    assert_eq!(
        rows(&servers, false, 3),
        vec![
            buffer(server("one"), true, true, false),
            buffer(channel("one", "#a"), true, true, true),
            buffer(query("one", "bob"), true, true, false),
            Row::Gap,
            buffer(server("two"), false, false, false),
            buffer(server("three"), true, true, false),
            buffer(channel("three", "#a"), true, true, true),
            buffer(query("three", "bob"), true, true, false),
            Row::Gap,
        ]
    );
}

#[test]
fn rows_of_a_horizontal_sidebar() {
    let servers = vec![view("one", true), view("two", true)];
    let got = rows(&servers, true, 2);
    assert_eq!(
        got,
        vec![
            buffer(server("one"), true, true, false),
            buffer(channel("one", "#a"), true, true, true),
            buffer(query("one", "bob"), true, true, false),
            Row::Rule,
            buffer(server("two"), true, true, false),
            buffer(channel("two", "#a"), true, true, true),
            buffer(query("two", "bob"), true, true, false),
        ]
    );
    assert_eq!(rows(&servers, true, 3).last(), Some(&Row::Rule));
    assert_eq!(rows(&servers, true, 0).iter().filter(|r| **r == Row::Rule).count(), 0);
    assert_eq!(rows(&vec![], true, 2), vec![]);
}
