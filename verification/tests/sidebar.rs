use file_transfer::sidebar::{
    Command, Entry, Event, Internal, Menu, Message, PaneId, Sidebar, Upstream, CONFIG_RELOAD_DELAY,
};

fn server() -> Upstream {
    Upstream::Server("libera".to_string())
}

fn channel() -> Upstream {
    Upstream::Channel("libera".to_string(), "#rust".to_string())
}

const A: PaneId = PaneId { window: 1, pane: 1 };
const B: PaneId = PaneId { window: 1, pane: 2 };

#[test]
fn new_sidebar_is_shown() {
    let s = Sidebar::new();
    assert!(!s.hidden);
    assert!(!s.is_reloading());
    assert!(!Sidebar::default().hidden);
}

#[test]
fn toggle_visibility_flips_and_flips_back() {
    let mut s = Sidebar::new();
    s.toggle_visibility();
    assert!(s.hidden);
    assert!(s.is_hidden());
    s.toggle_visibility();
    assert!(!s.hidden);
}

#[test]
fn update_passes_messages_on_as_events() {
    let mut s = Sidebar::new();
    let cases: Vec<(Message<u8>, Event<u8>)> = vec![
        (Message::New(channel()), Event::New(channel())),
        (Message::Popout(channel()), Event::Popout(channel())),
        (Message::Focus(A), Event::Focus(A)),
        (Message::Replace(server()), Event::Replace(server())),
        (Message::Close(B), Event::Close(B)),
        (Message::Swap(B), Event::Swap(B)),
        (Message::Leave(channel()), Event::Leave(channel())),
        (
            Message::ToggleInternalBuffer(Internal::FileTransfers),
            Event::ToggleInternalBuffer(Internal::FileTransfers),
        ),
        (Message::ToggleCommandBar, Event::ToggleCommandBar),
        (Message::ToggleThemeEditor, Event::ToggleThemeEditor),
        (Message::OpenReleaseWebsite, Event::OpenReleaseWebsite),
        (Message::OpenDocumentation, Event::OpenDocumentation),
        (Message::OpenConfigFile, Event::OpenConfigFile),
        (Message::MarkAsRead(channel()), Event::MarkAsRead(channel())),
        (
            Message::MarkServerAsRead("libera".to_string()),
            Event::MarkServerAsRead("libera".to_string()),
        ),
    ];
    for (message, event) in cases {
        assert_eq!(s.update(message), (Command::Idle, Some(event)));
        assert!(!s.is_reloading());
        assert!(!s.hidden);
    }
}

#[test]
fn reload_runs_from_request_to_completion() {
    let mut s = Sidebar::new();
    assert_eq!(s.update(Message::<u8>::ReloadConfigFile), (Command::LoadConfig, None));
    assert!(s.is_reloading());
    assert_eq!(
        s.update(Message::ConfigReloaded(7u8)),
        (Command::CompleteReloadAfter(CONFIG_RELOAD_DELAY), Some(Event::ConfigReloaded(7u8)))
    );
    assert_eq!(CONFIG_RELOAD_DELAY, 1);
    assert!(s.is_reloading());
    assert_eq!(s.update(Message::<u8>::ReloadComplete), (Command::Idle, None));
    assert!(!s.is_reloading());
}

#[test]
fn menu_lists_its_entries_in_order() {
    assert_eq!(
        Menu::list(),
        vec![
            Menu::Version,
            Menu::HorizontalRule,
            Menu::CommandBar,
            Menu::Documentation,
            Menu::FileTransfers,
            Menu::Highlights,
            Menu::Logs,
            Menu::OpenConfigFile,
            Menu::RefreshConfig,
            Menu::ThemeEditor,
        ]
    );
}

#[test]
fn entries_for_a_buffer_that_is_not_open() {
    assert_eq!(
        Entry::list(&channel(), 3, None, A),
        vec![Entry::MarkAsRead, Entry::NewPane, Entry::Popout, Entry::Replace, Entry::Leave]
    );
    assert_eq!(
        Entry::list(&server(), 1, None, A),
        vec![
            Entry::MarkServerAsRead,
            Entry::MarkAsRead,
            Entry::NewPane,
            Entry::Popout,
            Entry::Replace,
            Entry::Leave
        ]
    );
}

#[test]
fn entries_for_an_open_buffer() {
    assert_eq!(Entry::list(&channel(), 1, Some(A), A), vec![Entry::Leave]);
    assert_eq!(Entry::list(&channel(), 2, Some(A), A), vec![Entry::Close(A), Entry::Leave]);
    assert_eq!(Entry::list(&channel(), 1, Some(B), A), vec![Entry::Swap(B), Entry::Leave]);
    assert_eq!(
        Entry::list(&server(), 2, Some(B), A),
        vec![Entry::MarkServerAsRead, Entry::Close(B), Entry::Swap(B), Entry::Leave]
    );
    let other_window = PaneId { window: 2, pane: 1 };
    assert_eq!(
        Entry::list(&channel(), 1, Some(other_window), A),
        vec![Entry::Swap(other_window), Entry::Leave]
    );
}

#[test]
fn buffers_compare_by_kind_and_names() {
    assert!(server().equals(&server()));
    assert!(channel().equals(&channel()));
    assert!(!server().equals(&channel()));
    assert!(!channel().equals(&Upstream::Query("libera".to_string(), "#rust".to_string())));
    assert!(!channel().equals(&Upstream::Channel("oftc".to_string(), "#rust".to_string())));
    assert_eq!(channel().server(), "libera");
    assert_eq!(channel().duplicate(), channel());
    assert!(server().is_server());
    assert!(!channel().is_server());
}
