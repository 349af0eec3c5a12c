//! What the file-transfer subsystem is configured with, and the checks made
//! on it when it is loaded.

use vstd::prelude::*;
use crate::endpoint::{Address, PortRange, RangeError};
use crate::pattern::{compiles, pattern_compiles};

verus! {

/// Why a configuration is refused when it is loaded.
#[derive(Clone, Copy, Debug, PartialEq, Eq, Structural)]
pub enum ConfigError {
    /// A bind port is zero.
    ZeroPort,
    /// `bind_port_last` is less than `bind_port_first`.
    InvertedPortRange,
    /// The mask at this place in `auto_accept.masks` is no regular expression.
    MalformedMask(usize),
}

/// Whether the remote side is asked to listen when nothing is configured.
pub fn default_passive() -> (passive: bool)
    ensures
        passive,
{
    true
}

/// Seconds to wait for an offer to be accepted when nothing is configured.
pub fn default_timeout() -> (seconds: u64)
    ensures
        seconds == 300,
{
    60 * 5
}

/// Whether offers are accepted unasked when nothing is configured.
pub fn default_auto_accept() -> (enabled: bool)
    ensures
        !enabled,
{
    false
}

/// Who may send files without being asked about each.
#[derive(Debug, Clone)]
pub struct AutoAccept {
    /// If true, incoming transfers are accepted automatically. Needs a save
    /// directory.
    pub enabled: bool,
    /// Accept from these nicks. An absent list matches nobody.
    pub nicks: Option<Vec<String>>,
    /// Accept from senders whose hostmask one of these regular expressions
    /// finds a match in. An absent list matches nobody.
    pub masks: Option<Vec<String>>,
}

impl Default for AutoAccept {
    fn default() -> (rules: AutoAccept)
        ensures
            !rules.enabled,
            rules.nicks is None,
            rules.masks is None,
    {
        AutoAccept { enabled: default_auto_accept(), nicks: None, masks: None }
    }
}

impl AutoAccept {
    /// The place of the first mask that is no regular expression, if there is one.
    pub open spec fn first_malformed(self) -> Option<usize> {
        match self.masks {
            Some(masks) => first_false(Seq::new(masks@.len(), |i: int| pattern_compiles(masks@[i]@))),
            None => None,
        }
    }

    /// Checks every mask, in order, and names the first that does not compile.
    pub fn validate(&self) -> (r: Result<(), ConfigError>)
        ensures
            r == (match self.first_malformed() {
                Some(index) => Err::<(), ConfigError>(ConfigError::MalformedMask(index)),
                None => Ok(()),
            }),
    {
        match &self.masks {
            None => Ok(()),
            Some(masks) => {
                let mut verdicts: Vec<bool> = Vec::new();
                let mut i: usize = 0;
                while i < masks.len()
                    invariant
                        i <= masks.len(),
                        verdicts@ == Seq::new(i as nat, |k: int| pattern_compiles(masks@[k]@)),
                    decreases masks.len() - i,
                {
                    let ok = compiles(masks[i].as_str());
                    verdicts.push(ok);
                    assert(verdicts@ =~= Seq::new((i + 1) as nat, |k: int| pattern_compiles(masks@[k]@)));
                    i = i + 1;
                }
                match first_refused(&verdicts) {
                    Some(index) => Err(ConfigError::MalformedMask(index)),
                    None => Ok(()),
                }
            },
        }
    }
}

/// The least index at which `verdicts` holds `false`, if any does.
pub open spec fn first_false(verdicts: Seq<bool>) -> Option<usize> {
    if exists|i: int| 0 <= i < verdicts.len() && !verdicts[i] {
        let i = choose|i: int|
            0 <= i < verdicts.len() && !verdicts[i] && forall|j: int| 0 <= j < i ==> verdicts[j];
        Some(i as usize)
    } else {
        None
    }
}

/// Finds the first `false` among the verdicts on a list of masks.
pub fn first_refused(verdicts: &Vec<bool>) -> (r: Option<usize>)
    ensures
        r == first_false(verdicts@),
        r matches Some(i) ==> i < verdicts.len() && !verdicts[i as int] && forall|j: int|
            0 <= j < i ==> verdicts[j],
        r is None ==> forall|j: int| 0 <= j < verdicts.len() ==> verdicts[j],
{
    let mut i: usize = 0;
    while i < verdicts.len()
        invariant
            i <= verdicts.len(),
            forall|j: int| 0 <= j < i ==> verdicts[j],
        decreases verdicts.len() - i,
    {
        if !verdicts[i] {
            proof {
                let w = choose|w: int|
                    0 <= w < verdicts@.len() && !verdicts@[w] && forall|j: int|
                        0 <= j < w ==> verdicts@[j];
                assert(0 <= i < verdicts@.len() && !verdicts@[i as int] && forall|j: int|
                    0 <= j < i ==> verdicts@[j]);
                assert(w == i) by {
                    if w < i {
                        assert(verdicts@[w]);
                    } else if i < w {
                        assert(verdicts@[i as int]);
                    }
                }
            }
            return Some(i);
        }
        i = i + 1;
    }
    None
}

/// The addresses and ports used when this side listens.
#[derive(Debug, Clone, Copy)]
pub struct Server {
    /// Address advertised to the remote user to connect to.
    pub public_address: Address,
    /// Address to bind to when accepting connections.
    pub bind_address: Address,
    /// Ports to bind in.
    pub bind_ports: PortRange,
}

impl Server {
    /// Builds the server block from its four settings, refusing a zero port
    /// and a last port below the first.
    pub fn new(
        public_address: Address,
        bind_address: Address,
        bind_port_first: u16,
        bind_port_last: u16,
    ) -> (r: Result<Server, ConfigError>)
        ensures
            r is Ok <==> 1 <= bind_port_first <= bind_port_last,
            r matches Ok(server) ==> {
                &&& server.public_address == public_address
                &&& server.bind_address == bind_address
                &&& server.bind_ports.low() == bind_port_first
                &&& server.bind_ports.high() == bind_port_last
            },
            r matches Err(e) ==> e == (if bind_port_first == 0 || bind_port_last == 0 {
                ConfigError::ZeroPort
            } else {
                ConfigError::InvertedPortRange
            }),
    {
        match PortRange::new(bind_port_first, bind_port_last) {
            Ok(bind_ports) => Ok(Server { public_address, bind_address, bind_ports }),
            Err(RangeError::ZeroPort) => Err(ConfigError::ZeroPort),
            Err(RangeError::Inverted) => Err(ConfigError::InvertedPortRange),
        }
    }
}

/// The file-transfer settings.
#[derive(Debug, Clone)]
pub struct FileTransfer {
    /// Default directory to save files in. If not set, the user is asked
    /// where each file goes.
    pub save_directory: Option<String>,
    /// If true, act as the client of the connection: the remote user listens.
    pub passive: bool,
    /// Seconds to wait before a transfer that nobody accepted times out.
    pub timeout: u64,
    /// Who may send files without being asked about each.
    pub auto_accept: AutoAccept,
    /// Where to listen. Needed only when this side listens.
    pub server: Option<Server>,
}

impl Default for FileTransfer {
    fn default() -> (config: FileTransfer)
        ensures
            config.save_directory is None,
            config.passive,
            config.timeout == 300,
            !config.auto_accept.enabled,
            config.auto_accept.nicks is None,
            config.auto_accept.masks is None,
            config.server is None,
    {
        FileTransfer {
            save_directory: None,
            passive: default_passive(),
            timeout: default_timeout(),
            auto_accept: AutoAccept::default(),
            server: None,
        }
    }
}

impl FileTransfer {
    /// The load-time check: every mask must compile. (A server block is
    /// checked when it is built.)
    pub fn validate(&self) -> (r: Result<(), ConfigError>)
        ensures
            r == (match self.auto_accept.first_malformed() {
                Some(index) => Err::<(), ConfigError>(ConfigError::MalformedMask(index)),
                None => Ok(()),
            }),
    {
        self.auto_accept.validate()
    }
}

} // verus!
