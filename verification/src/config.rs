//! From the flags of the command line to the setup of a session: where the
//! transport settings start from, what is set over them, and the channels
//! to subscribe to.

use vstd::prelude::*;
use vstd::string::*;
use crate::text::{names_view, same_text, text_view};

verus! {

/// The channel that a tool which follows one channel subscribes to where
/// the command line names none.
pub const DEFAULT_KEY: &'static str = "demo/example/**";

/// The part a session takes on the transport.
#[derive(Debug, Clone, Copy, PartialEq, Eq, Structural)]
pub enum Mode {
    Peer,
    Client,
}

/// Why flags were refused.
#[derive(Debug, Clone, Copy, PartialEq, Eq, Structural)]
pub enum ConfigError {
    /// The mode is neither `peer` nor `client`.
    UnknownMode,
}

/// The mode that `name` names, if it names one.
pub open spec fn mode_named(name: Seq<char>) -> Option<Mode> {
    if name == "peer"@ {
        Some(Mode::Peer)
    } else if name == "client"@ {
        Some(Mode::Client)
    } else {
        None
    }
}

impl Mode {
    /// The mode that `name` names: `peer` or `client`, spelled so.
    pub fn parse(name: &str) -> (mode: Option<Mode>)
        ensures
            mode == mode_named(name@),
    {
        if same_text(name, "peer") {
            Some(Mode::Peer)
        } else if same_text(name, "client") {
            Some(Mode::Client)
        } else {
            None
        }
    }
}

/// The flags as the command line gave them: the mode by its name, the
/// channels and the locators of peers in the order given, and the path of
/// a file of transport settings.
#[derive(Debug)]
pub struct Flags {
    pub mode: Option<String>,
    pub keys: Vec<String>,
    pub peers: Vec<String>,
    pub config: Option<String>,
}

/// What flags stand for.
pub struct FlagsView {
    pub mode: Option<Seq<char>>,
    pub keys: Seq<Seq<char>>,
    pub peers: Seq<Seq<char>>,
    pub config: Option<Seq<char>>,
}

impl View for Flags {
    type V = FlagsView;

    open spec fn view(&self) -> FlagsView {
        FlagsView {
            mode: text_view(self.mode),
            keys: names_view(self.keys@),
            peers: names_view(self.peers@),
            config: text_view(self.config),
        }
    }
}

/// How a session is set up. The transport settings start from the file
/// `config_file`, or from the transport's defaults where there is none;
/// then `mode` is set over them, where one was asked for, and `peers` are
/// added to the locators to connect to. `keys` are the channels to
/// subscribe to, in the order given.
#[derive(Debug)]
pub struct Setup {
    pub config_file: Option<String>,
    pub mode: Option<Mode>,
    pub peers: Vec<String>,
    pub keys: Vec<String>,
}

/// What a setup stands for.
pub struct SetupView {
    pub config_file: Option<Seq<char>>,
    pub mode: Option<Mode>,
    pub peers: Seq<Seq<char>>,
    pub keys: Seq<Seq<char>>,
}

impl View for Setup {
    type V = SetupView;

    open spec fn view(&self) -> SetupView {
        SetupView {
            config_file: text_view(self.config_file),
            mode: self.mode,
            peers: names_view(self.peers@),
            keys: names_view(self.keys@),
        }
    }
}

/// The channels to subscribe to: those that were given, or the one that
/// stands in for them where none was given and there is such a one.
pub open spec fn keys_or_default(keys: Seq<Seq<char>>, default_key: Option<Seq<char>>) -> Seq<
    Seq<char>,
> {
    match default_key {
        Some(key) => if keys.len() == 0 {
            seq![key]
        } else {
            keys
        },
        None => keys,
    }
}

/// Whether the mode flag, where it was given, names a mode.
pub open spec fn mode_accepted(mode: Option<Seq<char>>) -> bool {
    match mode {
        Some(name) => mode_named(name).is_some(),
        None => true,
    }
}

/// The setup that `flags` ask for.
pub open spec fn setup_of(flags: FlagsView, default_key: Option<Seq<char>>) -> SetupView {
    SetupView {
        config_file: flags.config,
        mode: match flags.mode {
            Some(name) => mode_named(name),
            None => None,
        },
        peers: flags.peers,
        keys: keys_or_default(flags.keys, default_key),
    }
}

/// One change to the transport settings.
#[derive(Debug, PartialEq, Eq)]
pub enum Change {
    /// Take the settings of this file in place of the defaults.
    LoadFile(String),
    /// Set the mode.
    SetMode(Mode),
    /// Add this locator to those to connect to.
    AddPeer(String),
}

/// What a change stands for.
pub enum ChangeView {
    LoadFile(Seq<char>),
    SetMode(Mode),
    AddPeer(Seq<char>),
}

impl View for Change {
    type V = ChangeView;

    open spec fn view(&self) -> ChangeView {
        match self {
            Change::LoadFile(path) => ChangeView::LoadFile(path@),
            Change::SetMode(mode) => ChangeView::SetMode(*mode),
            Change::AddPeer(locator) => ChangeView::AddPeer(locator@),
        }
    }
}

/// The views of a sequence of changes, in the same order.
pub open spec fn changes_view(changes: Seq<Change>) -> Seq<ChangeView> {
    Seq::new(changes.len(), |i: int| changes[i]@)
}

/// The file of settings, if one is read: it comes before everything else.
pub open spec fn file_change(config_file: Option<Seq<char>>) -> Seq<ChangeView> {
    match config_file {
        Some(path) => seq![ChangeView::LoadFile(path)],
        None => Seq::empty(),
    }
}

/// The mode, if one was asked for: it is set over what the file or the
/// defaults say.
pub open spec fn mode_change(mode: Option<Mode>) -> Seq<ChangeView> {
    match mode {
        Some(mode) => seq![ChangeView::SetMode(mode)],
        None => Seq::empty(),
    }
}

/// The locators of peers, each added in the order given.
pub open spec fn peer_changes(peers: Seq<Seq<char>>) -> Seq<ChangeView> {
    Seq::new(peers.len(), |i: int| ChangeView::AddPeer(peers[i]))
}

/// The changes that lead from the transport's default settings to those
/// of `setup`, in the order in which they are to be made.
pub open spec fn changes_of(setup: SetupView) -> Seq<ChangeView> {
    file_change(setup.config_file) + mode_change(setup.mode) + peer_changes(setup.peers)
}

impl Setup {
    /// The changes that lead from the transport's default settings to
    /// those of this setup, in the order in which they are to be made:
    /// first the file, then the mode, then the peers.
    pub fn changes(&self) -> (changes: Vec<Change>)
        ensures
            changes_view(changes@) == changes_of(self@),
    {
        let mut changes: Vec<Change> = Vec::new();
        match &self.config_file {
            Some(path) => {
                changes.push(Change::LoadFile(path.clone()));
            },
            None => {},
        }
        match self.mode {
            Some(mode) => {
                changes.push(Change::SetMode(mode));
            },
            None => {},
        }
        let ghost head = file_change(self@.config_file) + mode_change(self@.mode);
        assert(changes_view(changes@) =~= head);
        let n: usize = self.peers.len();
        let mut i: usize = 0;
        while i < n
            invariant
                i <= n,
                n == self.peers@.len(),
                changes@.len() == head.len() + i,
                forall|k: int| 0 <= k < head.len() ==> (#[trigger] changes@[k])@ == head[k],
                forall|k: int|
                    0 <= k < i ==> (#[trigger] changes@[head.len() + k])@ == ChangeView::AddPeer(
                        self.peers@[k]@,
                    ),
            decreases n - i,
        {
            changes.push(Change::AddPeer(self.peers[i].clone()));
            i = i + 1;
        }
        proof {
            let tail = peer_changes(self@.peers);
            assert(changes_of(self@) == head + tail);
            assert forall|k: int| 0 <= k < changes@.len() implies changes_view(changes@)[k] == (head
                + tail)[k] by {
                if k >= head.len() {
                    assert(changes@[head.len() + (k - head.len())]@ == tail[k - head.len()]);
                }
            }
            assert(changes_view(changes@) =~= head + tail);
        }
        changes
    }

    /// The mode of the session where no file of settings is read: the one
    /// that was asked for, and `peer` where none was.
    pub open spec fn spec_mode_over_defaults(&self) -> Mode {
        match self.mode {
            Some(mode) => mode,
            None => Mode::Peer,
        }
    }

    /// The mode of the session where no file of settings is read: the one
    /// that was asked for, and `peer` where none was.
    #[verifier::when_used_as_spec(spec_mode_over_defaults)]
    pub fn mode_over_defaults(&self) -> (mode: Mode)
        ensures
            mode == self.spec_mode_over_defaults(),
    {
        match self.mode {
            Some(mode) => mode,
            None => Mode::Peer,
        }
    }

    /// The channel that a tool which follows a single channel subscribes
    /// to: the first of `keys`, if there is one.
    pub fn followed_key(&self) -> (key: Option<&String>)
        ensures
            key.is_some() == (self.keys@.len() > 0),
            key.is_some() ==> key.unwrap() == self.keys@[0],
    {
        if self.keys.len() > 0 {
            Some(&self.keys[0])
        } else {
            None
        }
    }
}

/// Turns the flags of the command line into the setup of a session.
/// `default_key` is the channel that is subscribed to where the flags name
/// none; a tool without such a channel passes `None` and then subscribes
/// to nothing. Flags whose mode is neither `peer` nor `client` are refused;
/// all others are accepted.
pub fn configure(flags: Flags, default_key: Option<&str>) -> (outcome: Result<Setup, ConfigError>)
    ensures
        outcome.is_ok() == mode_accepted(flags@.mode),
        outcome.is_ok() ==> outcome.unwrap()@ == setup_of(
            flags@,
            match default_key {
                Some(key) => Some(key@),
                None => None,
            },
        ),
        outcome.is_err() ==> outcome == Err::<Setup, ConfigError>(ConfigError::UnknownMode),
{
    let mode: Option<Mode> = match &flags.mode {
        Some(name) => {
            match Mode::parse(name.as_str()) {
                Some(mode) => Some(mode),
                None => {
                    return Err(ConfigError::UnknownMode);
                },
            }
        },
        None => None,
    };
    let ghost given = flags@;
    let mut keys = flags.keys;
    match default_key {
        Some(key) => {
            if keys.len() == 0 {
                keys.push(key.to_owned());
                assert(names_view(keys@) =~= seq![key@]);
            }
        },
        None => {},
    }
    Ok(Setup { config_file: flags.config, mode, peers: flags.peers, keys })
}

} // verus!
