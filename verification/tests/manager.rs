use file_transfer::config::{AutoAccept, FileTransfer, Server};
use file_transfer::endpoint::{Address, Endpoint};
use file_transfer::manager::{carried_endpoint, Manager};
use file_transfer::policy::{Collation, Decision};
use file_transfer::ports::TransferId;
use file_transfer::session::SessionEnd;
use file_transfer::transfer::{
    Destination, Directive, FailureReason, Mode, Progress, Role, State, TransferError,
};

const PUBLIC: Address = Address::V4(0xCB00_7101);
const BIND: Address = Address::V4(0);
const PEER: Address = Address::V4(0xC633_6407);

fn config(first: u16, last: u16) -> FileTransfer {
    FileTransfer {
        save_directory: Some("/downloads".to_string()),
        passive: false,
        timeout: 300,
        auto_accept: AutoAccept {
            enabled: true,
            nicks: Some(vec!["alice".to_string()]),
            masks: Some(vec![r"@trusted\.example$".to_string()]),
        },
        server: Some(Server::new(PUBLIC, BIND, first, last).unwrap()),
    }
}

fn manager(first: u16, last: u16) -> Manager {
    Manager::new(config(first, last), Collation::Rfc1459)
}

fn inbound(m: &mut Manager, nick: &str, mode: Mode, endpoint: Option<Endpoint>, now: u64) -> (TransferId, Directive) {
    let (address, port) = match endpoint {
        Some(e) => (Some(e.address), e.port),
        None => (None, 0),
    };
    m.receive_offer(
        nick.to_string(),
        &format!("{nick}!user@host.example"),
        mode,
        "notes.txt".to_string(),
        4096,
        address,
        port,
        now,
    )
}

fn peer(port: u16) -> Endpoint {
    Endpoint { address: PEER, port }
}

#[test]
fn new_manager_is_empty() {
    let m = manager(5000, 5001);
    assert!(m.is_empty());
    assert_eq!(m.len(), 0);
    assert_eq!(m.in_flight(), 0);
    assert!(!m.has_unacknowledged());
    assert_eq!(m.identities_issued(), 0);
    assert_eq!(m.state(TransferId(0)), None);
    assert_eq!(m.default_mode(), Mode::Active);
    assert_eq!(m.timeout(), 300);
}

#[test]
fn default_mode_follows_the_passive_setting() {
    let m = Manager::new(FileTransfer::default(), Collation::Ascii);
    assert_eq!(m.default_mode(), Mode::Passive);
}

#[test]
fn listed_sender_is_accepted_without_asking() {
    let mut m = manager(5000, 5001);
    let (id, directive) = inbound(&mut m, "alice", Mode::Active, Some(peer(4000)), 10);
    assert_eq!(id, TransferId(0));
    assert_eq!(directive, Directive::Dial { id, endpoint: peer(4000) });
    assert_eq!(m.state(id), Some(State::Connecting));
    let record = m.snapshot(id).unwrap();
    assert_eq!(record.destination, Some(Destination::Directory("/downloads".to_string())));
    assert_eq!(record.role, Role::Receiver);
    assert_eq!(record.remote, "alice");
    assert_eq!(record.file_name, "notes.txt");
    assert_eq!(record.size, 4096);
    assert_eq!(record.created_at, 10);
    assert_eq!(record.progress, Progress { transferred: 0, rate: None });
}

#[test]
fn same_offer_with_rules_disabled_awaits_accept() {
    let mut c = config(5000, 5001);
    c.auto_accept.enabled = false;
    let mut m = Manager::new(c, Collation::Rfc1459);
    let (id, directive) = inbound(&mut m, "alice", Mode::Active, Some(peer(4000)), 10);
    assert_eq!(directive, Directive::AwaitDecision { id });
    assert_eq!(m.state(id), Some(State::AwaitingAccept));
    assert_eq!(m.snapshot(id).unwrap().destination, None);
}

#[test]
fn offer_without_save_directory_awaits_accept() {
    let mut c = config(5000, 5001);
    c.save_directory = None;
    let mut m = Manager::new(c, Collation::Rfc1459);
    let (id, directive) = inbound(&mut m, "alice", Mode::Active, Some(peer(4000)), 10);
    assert_eq!(directive, Directive::AwaitDecision { id });
    assert_eq!(m.state(id), Some(State::AwaitingAccept));
}

#[test]
fn sender_found_by_mask_is_accepted() {
    let mut m = manager(5000, 5001);
    let (id, _) = m.receive_offer(
        "mallory".to_string(),
        "mallory!m@trusted.example",
        Mode::Active,
        "a.bin".to_string(),
        1,
        Some(PEER),
        4000,
        0,
    );
    assert_eq!(m.state(id), Some(State::Connecting));
    let (id, _) = m.receive_offer(
        "mallory".to_string(),
        "mallory!m@untrusted.example",
        Mode::Active,
        "a.bin".to_string(),
        1,
        Some(PEER),
        4000,
        0,
    );
    assert_eq!(m.state(id), Some(State::AwaitingAccept));
}

#[test]
fn nick_is_compared_under_the_collation() {
    let mut m = manager(5000, 5001);
    let (id, _) = inbound(&mut m, "ALICE", Mode::Active, Some(peer(4000)), 0);
    assert_eq!(m.state(id), Some(State::Connecting));
    let mut m = Manager::new(config(5000, 5001), Collation::CaseSensitive);
    let (id, _) = inbound(&mut m, "ALICE", Mode::Active, Some(peer(4000)), 0);
    assert_eq!(m.state(id), Some(State::AwaitingAccept));
}

#[test]
fn own_offer_is_never_auto_accepted() {
    let mut m = manager(5000, 5001);
    let (id, directive) = m.offer(
        Role::Sender,
        Mode::Active,
        "alice".to_string(),
        "alice!a@trusted.example",
        "out.txt".to_string(),
        7,
        None,
        3,
    );
    assert_eq!(directive, Directive::SendOffer { id });
    assert_eq!(m.state(id), Some(State::AwaitingAccept));
    let (id, directive) = m.register(
        Role::Sender,
        Mode::Passive,
        "alice".to_string(),
        "out.txt".to_string(),
        7,
        None,
        Decision::Allow,
        3,
    );
    assert_eq!(directive, Directive::SendOffer { id });
    assert_eq!(m.state(id), Some(State::AwaitingAccept));
}

#[test]
fn accepted_passive_offer_listens_on_the_lowest_port() {
    let mut m = manager(5000, 5001);
    let (id, directive) = inbound(&mut m, "bob", Mode::Passive, None, 0);
    assert_eq!(directive, Directive::AwaitDecision { id });
    let directive = m.accept(id, Some("/tmp/notes.txt".to_string())).unwrap();
    assert_eq!(
        directive,
        Directive::Listen {
            id,
            bind: Endpoint { address: BIND, port: 5000 },
            advertise: Endpoint { address: PUBLIC, port: 5000 },
        }
    );
    let record = m.snapshot(id).unwrap();
    assert_eq!(record.state, State::Connecting);
    assert_eq!(record.lease, Some(5000));
    assert_eq!(record.destination, Some(Destination::Path("/tmp/notes.txt".to_string())));
}

#[test]
fn accept_falls_back_to_the_save_directory() {
    let mut m = manager(5000, 5001);
    let (id, _) = inbound(&mut m, "bob", Mode::Active, Some(peer(4000)), 0);
    assert_eq!(m.accept(id, None), Ok(Directive::Dial { id, endpoint: peer(4000) }));
    assert_eq!(
        m.snapshot(id).unwrap().destination,
        Some(Destination::Directory("/downloads".to_string()))
    );
}

#[test]
fn accept_without_destination_is_refused_and_changes_nothing() {
    let mut c = config(5000, 5001);
    c.save_directory = None;
    let mut m = Manager::new(c, Collation::Rfc1459);
    let (id, _) = inbound(&mut m, "bob", Mode::Active, Some(peer(4000)), 0);
    let before = m.snapshot(id).unwrap();
    assert_eq!(m.accept(id, None), Err(TransferError::MissingDestination));
    assert_eq!(m.snapshot(id).unwrap(), before);
    assert_eq!(m.state(id), Some(State::AwaitingAccept));
    assert!(m.accept(id, Some("/tmp/x".to_string())).is_ok());
}

#[test]
fn accept_of_an_unknown_transfer_is_refused() {
    let mut m = manager(5000, 5001);
    assert_eq!(m.accept(TransferId(9), None), Err(TransferError::UnknownTransfer));
}

#[test]
fn accept_while_transferring_is_refused_and_changes_nothing() {
    let mut m = manager(5000, 5001);
    let (id, _) = inbound(&mut m, "bob", Mode::Active, Some(peer(4000)), 0);
    m.accept(id, None).unwrap();
    m.connected(id).unwrap();
    let before = m.snapshot(id).unwrap();
    assert_eq!(before.state, State::Transferring);
    assert_eq!(m.accept(id, Some("/tmp/x".to_string())), Err(TransferError::InvalidState));
    assert_eq!(m.snapshot(id).unwrap(), before);
}

#[test]
fn accept_is_refused_in_every_state_but_awaiting() {
    let mut m = manager(5000, 5001);
    let (id, _) = inbound(&mut m, "bob", Mode::Active, Some(peer(4000)), 0);
    m.accept(id, None).unwrap();
    assert_eq!(m.accept(id, None), Err(TransferError::InvalidState));
    m.connected(id).unwrap();
    m.finish(id, SessionEnd::Completed).unwrap();
    assert_eq!(m.accept(id, None), Err(TransferError::InvalidState));
    let (own, _) = m.offer(Role::Sender, Mode::Active, "bob".to_string(), "", "f".to_string(), 1, None, 0);
    assert_eq!(m.accept(own, None), Err(TransferError::InvalidState));
}

#[test]
fn range_exhaustion_fails_the_transfer() {
    let mut m = manager(5000, 5001);
    let mut ports = Vec::new();
    for _ in 0..2 {
        let (id, _) = inbound(&mut m, "bob", Mode::Passive, None, 0);
        match m.accept(id, None).unwrap() {
            Directive::Listen { bind, .. } => ports.push(bind.port),
            other => panic!("unexpected {other:?}"),
        }
    }
    assert_eq!(ports, vec![5000, 5001]);
    let (id, _) = inbound(&mut m, "bob", Mode::Passive, None, 0);
    assert_eq!(m.accept(id, None), Ok(Directive::Nothing));
    assert_eq!(m.state(id), Some(State::Failed(FailureReason::NoPortAvailable)));
    assert_eq!(m.snapshot(id).unwrap().lease, None);
}

#[test]
fn listening_without_a_server_block_fails_the_transfer() {
    let mut c = config(5000, 5001);
    c.server = None;
    let mut m = Manager::new(c, Collation::Rfc1459);
    let (id, directive) = inbound(&mut m, "alice", Mode::Passive, None, 0);
    assert_eq!(directive, Directive::Nothing);
    assert_eq!(m.state(id), Some(State::Failed(FailureReason::NoPortAvailable)));
}

#[test]
fn offer_times_out_after_the_timeout() {
    let mut c = config(5000, 5001);
    c.timeout = 1;
    let mut m = Manager::new(c, Collation::Rfc1459);
    let (id, _) = inbound(&mut m, "bob", Mode::Passive, None, 100);
    assert_eq!(m.tick(100), vec![]);
    assert_eq!(m.tick(101), vec![]);
    assert_eq!(m.state(id), Some(State::AwaitingAccept));
    assert_eq!(m.tick(102), vec![id]);
    assert_eq!(m.state(id), Some(State::TimedOut));
    assert_eq!(m.snapshot(id).unwrap().lease, None);
    assert_eq!(m.tick(200), vec![]);
    assert_eq!(m.accept(id, None), Err(TransferError::InvalidState));
}

#[test]
fn timeout_is_disarmed_once_connecting() {
    let mut c = config(5000, 5001);
    c.timeout = 1;
    let mut m = Manager::new(c, Collation::Rfc1459);
    let (waiting, _) = inbound(&mut m, "bob", Mode::Passive, None, 0);
    let (accepted, _) = inbound(&mut m, "bob", Mode::Passive, None, 0);
    let (own, _) = m.offer(Role::Sender, Mode::Active, "bob".to_string(), "", "f".to_string(), 1, None, 0);
    m.accept(accepted, None).unwrap();
    assert_eq!(m.tick(1000), vec![waiting, own]);
    assert_eq!(m.state(accepted), Some(State::Connecting));
    assert_eq!(m.snapshot(accepted).unwrap().lease, Some(5000));
    assert_eq!(m.state(own), Some(State::TimedOut));
}

#[test]
fn clock_that_goes_back_times_nothing_out() {
    let mut m = manager(5000, 5001);
    let (id, _) = inbound(&mut m, "bob", Mode::Passive, None, 1000);
    assert_eq!(m.tick(0), vec![]);
    assert_eq!(m.state(id), Some(State::AwaitingAccept));
}

#[test]
fn cancel_releases_the_lease() {
    let mut m = manager(5000, 5000);
    let (id, _) = inbound(&mut m, "bob", Mode::Passive, None, 0);
    m.accept(id, None).unwrap();
    m.connected(id).unwrap();
    m.report_progress(id, 100, None).unwrap();
    assert_eq!(m.cancel(id), Ok(Directive::Close { id }));
    let record = m.snapshot(id).unwrap();
    assert_eq!(record.state, State::Cancelled);
    assert_eq!(record.lease, None);
    assert_eq!(record.progress.transferred, 100);
    let (next, _) = inbound(&mut m, "bob", Mode::Passive, None, 0);
    assert!(matches!(m.accept(next, None), Ok(Directive::Listen { .. })));
    assert_eq!(m.snapshot(next).unwrap().lease, Some(5000));
}

#[test]
fn cancel_and_reject_are_refused_once_ended() {
    let mut m = manager(5000, 5001);
    let (id, _) = inbound(&mut m, "bob", Mode::Passive, None, 0);
    assert_eq!(m.reject(id), Ok(Directive::Close { id }));
    assert_eq!(m.state(id), Some(State::Cancelled));
    assert_eq!(m.reject(id), Err(TransferError::InvalidState));
    assert_eq!(m.cancel(id), Err(TransferError::InvalidState));
    assert_eq!(m.cancel(TransferId(77)), Err(TransferError::UnknownTransfer));
}

#[test]
fn remote_accept_of_an_active_offer_listens() {
    let mut m = manager(5000, 5001);
    let (id, _) = m.offer(Role::Sender, Mode::Active, "bob".to_string(), "", "f".to_string(), 1, None, 0);
    let directive = m.receive_accept(id, None, 0).unwrap();
    assert_eq!(
        directive,
        Directive::Listen {
            id,
            bind: Endpoint { address: BIND, port: 5000 },
            advertise: Endpoint { address: PUBLIC, port: 5000 },
        }
    );
    assert_eq!(m.state(id), Some(State::Connecting));
    assert_eq!(m.receive_accept(id, Some(PEER), 4000), Err(TransferError::InvalidState));
}

#[test]
fn remote_accept_of_a_passive_offer_dials() {
    let mut m = manager(5000, 5001);
    let (id, _) = m.offer(Role::Sender, Mode::Passive, "bob".to_string(), "", "f".to_string(), 1, None, 0);
    assert_eq!(
        m.receive_accept(id, Some(PEER), 4000),
        Ok(Directive::Dial { id, endpoint: peer(4000) })
    );
    assert_eq!(m.snapshot(id).unwrap().peer, Some(peer(4000)));
    assert_eq!(m.snapshot(id).unwrap().lease, None);
}

#[test]
fn connector_waits_for_the_endpoint() {
    let mut m = manager(5000, 5001);
    let (id, _) = inbound(&mut m, "bob", Mode::Active, None, 0);
    assert_eq!(m.accept(id, None), Ok(Directive::AwaitEndpoint { id }));
    assert_eq!(m.state(id), Some(State::Connecting));
    assert_eq!(m.receive_accept(id, None, 0), Err(TransferError::InvalidState));
    assert_eq!(m.receive_accept(id, Some(PEER), 0), Err(TransferError::InvalidState));
    assert_eq!(
        m.receive_accept(id, Some(PEER), 4000),
        Ok(Directive::Dial { id, endpoint: peer(4000) })
    );
    assert_eq!(m.receive_accept(id, Some(PEER), 4001), Err(TransferError::InvalidState));
    assert_eq!(m.receive_accept(TransferId(5), None, 0), Err(TransferError::UnknownTransfer));
}

#[test]
fn carried_endpoint_needs_address_and_port() {
    assert_eq!(carried_endpoint(Some(PEER), 4000), Some(peer(4000)));
    assert_eq!(carried_endpoint(Some(PEER), 0), None);
    assert_eq!(carried_endpoint(None, 4000), None);
}

#[test]
fn failed_connection_names_its_reason_and_frees_the_port() {
    let mut m = manager(5000, 5000);
    let (listener, _) = inbound(&mut m, "bob", Mode::Passive, None, 0);
    m.accept(listener, None).unwrap();
    assert_eq!(m.connection_failed(listener), Ok(FailureReason::NoPortAvailable));
    assert_eq!(m.state(listener), Some(State::Failed(FailureReason::NoPortAvailable)));
    assert_eq!(m.snapshot(listener).unwrap().lease, None);
    let (connector, _) = inbound(&mut m, "bob", Mode::Active, Some(peer(1)), 0);
    m.accept(connector, None).unwrap();
    assert_eq!(m.connection_failed(connector), Ok(FailureReason::ConnectFailed));
    assert_eq!(m.connection_failed(connector), Err(TransferError::InvalidState));
    let (again, _) = inbound(&mut m, "bob", Mode::Passive, None, 0);
    m.accept(again, None).unwrap();
    assert_eq!(m.snapshot(again).unwrap().lease, Some(5000));
}

#[test]
fn connected_needs_connecting() {
    let mut m = manager(5000, 5001);
    let (id, _) = inbound(&mut m, "bob", Mode::Active, Some(peer(1)), 0);
    assert_eq!(m.connected(id), Err(TransferError::InvalidState));
    m.accept(id, None).unwrap();
    assert_eq!(m.connected(id), Ok(()));
    assert_eq!(m.state(id), Some(State::Transferring));
    assert_eq!(m.connected(id), Err(TransferError::InvalidState));
    assert_eq!(m.connected(TransferId(8)), Err(TransferError::UnknownTransfer));
}

#[test]
fn progress_is_monotone_and_bounded() {
    let mut m = manager(5000, 5001);
    let (id, _) = inbound(&mut m, "bob", Mode::Active, Some(peer(1)), 0);
    assert_eq!(m.report_progress(id, 1, None), Err(TransferError::InvalidState));
    m.accept(id, None).unwrap();
    m.connected(id).unwrap();
    assert_eq!(m.report_progress(id, 1000, Some(50)), Ok(()));
    assert_eq!(m.progress_of(id), Some(Progress { transferred: 1000, rate: Some(50) }));
    assert_eq!(m.report_progress(id, 999, None), Err(TransferError::InvalidProgress));
    assert_eq!(m.report_progress(id, 4097, None), Err(TransferError::InvalidProgress));
    assert_eq!(m.progress_of(id), Some(Progress { transferred: 1000, rate: Some(50) }));
    assert_eq!(m.report_progress(id, 1000, None), Ok(()));
    assert_eq!(m.report_progress(id, 4096, None), Ok(()));
    assert_eq!(m.report_progress(TransferId(3), 0, None), Err(TransferError::UnknownTransfer));
}

#[test]
fn finish_maps_the_session_end() {
    let ends = [
        (SessionEnd::Completed, State::Completed),
        (SessionEnd::Truncated, State::Failed(FailureReason::Truncated)),
        (SessionEnd::IoError, State::Failed(FailureReason::IoError)),
        (SessionEnd::DestinationUnwritable, State::Failed(FailureReason::DestinationUnwritable)),
        (SessionEnd::Cancelled, State::Cancelled),
    ];
    for (end, state) in ends {
        let mut m = manager(5000, 5000);
        let (id, _) = inbound(&mut m, "bob", Mode::Passive, None, 0);
        assert_eq!(m.finish(id, end), Err(TransferError::InvalidState));
        m.accept(id, None).unwrap();
        m.connected(id).unwrap();
        assert_eq!(m.finish(id, end), Ok(state));
        assert_eq!(m.state(id), Some(state));
        assert_eq!(m.snapshot(id).unwrap().lease, None);
        assert_eq!(m.finish(id, end), Err(TransferError::InvalidState));
    }
}

#[test]
fn ended_transfers_stay_until_acknowledged() {
    let mut m = manager(5000, 5001);
    let (first, _) = inbound(&mut m, "bob", Mode::Active, Some(peer(1)), 0);
    let (second, _) = inbound(&mut m, "bob", Mode::Active, Some(peer(1)), 0);
    assert_eq!(m.in_flight(), 2);
    assert!(!m.has_unacknowledged());
    m.cancel(first).unwrap();
    assert_eq!(m.len(), 2);
    assert_eq!(m.in_flight(), 1);
    assert!(m.has_unacknowledged());
    assert!(!m.is_empty());
    assert_eq!(m.acknowledge(second).unwrap_err(), TransferError::InvalidState);
    let record = m.acknowledge(first).unwrap();
    assert_eq!(record.id, first);
    assert_eq!(record.state, State::Cancelled);
    assert!(!m.contains(first));
    assert!(m.contains(second));
    assert_eq!(m.acknowledge(first).unwrap_err(), TransferError::UnknownTransfer);
    assert_eq!(m.len(), 1);
    assert!(!m.has_unacknowledged());
}

#[test]
fn identities_are_never_reused() {
    let mut m = manager(5000, 5001);
    let (a, _) = inbound(&mut m, "bob", Mode::Active, None, 0);
    m.cancel(a).unwrap();
    m.acknowledge(a).unwrap();
    assert!(m.is_empty());
    let (b, _) = inbound(&mut m, "bob", Mode::Active, None, 0);
    assert_eq!(a, TransferId(0));
    assert_eq!(b, TransferId(1));
    assert_eq!(m.identities_issued(), 2);
}

#[test]
fn shutdown_cancels_what_runs_and_frees_every_port() {
    let mut m = manager(5000, 5001);
    let (waiting, _) = inbound(&mut m, "bob", Mode::Passive, None, 0);
    let (listening, _) = inbound(&mut m, "bob", Mode::Passive, None, 0);
    let (done, _) = inbound(&mut m, "bob", Mode::Passive, None, 0);
    m.accept(listening, None).unwrap();
    m.accept(done, None).unwrap();
    m.connected(done).unwrap();
    m.finish(done, SessionEnd::Completed).unwrap();
    assert_eq!(m.shutdown(), vec![waiting, listening]);
    assert_eq!(m.state(waiting), Some(State::Cancelled));
    assert_eq!(m.state(listening), Some(State::Cancelled));
    assert_eq!(m.state(done), Some(State::Completed));
    assert_eq!(m.in_flight(), 0);
    assert_eq!(m.snapshot(listening).unwrap().lease, None);
    let (next, _) = inbound(&mut m, "bob", Mode::Passive, None, 0);
    m.accept(next, None).unwrap();
    assert_eq!(m.snapshot(next).unwrap().lease, Some(5000));
    assert_eq!(m.shutdown(), vec![next]);
}
