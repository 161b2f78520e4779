use vstd::prelude::*;

verus! {

/// The class of client that `CLIENT KILL` and `CLIENT LIST` may filter on.
#[derive(Debug, Clone, Copy, PartialEq, Eq, Structural)]
pub enum ClientKillType {
    Normal,
    Master,
    Replica,
    Pubsub,
}

impl ClientKillType {
    pub open spec fn spec_str(self) -> Seq<char> {
        match self {
            ClientKillType::Normal => "normal"@,
            ClientKillType::Master => "master"@,
            ClientKillType::Replica => "replica"@,
            ClientKillType::Pubsub => "pubsub"@,
        }
    }

    pub fn to_str(&self) -> (r: String)
        ensures
            r@ == self.spec_str(),
    {
        match self {
            ClientKillType::Normal => "normal".to_owned(),
            ClientKillType::Master => "master".to_owned(),
            ClientKillType::Replica => "replica".to_owned(),
            ClientKillType::Pubsub => "pubsub".to_owned(),
        }
    }
}

/// One filter of `CLIENT KILL`: a field and the value it must have.
#[derive(Debug, Clone)]
pub enum ClientKillFilter {
    ID(String),
    Type(ClientKillType),
    User(String),
    Addr(String),
    LAddr(String),
    SkipMe(bool),
}

impl ClientKillFilter {
    /// The field name and the value of the filter.
    pub open spec fn spec_pair(self) -> (Seq<char>, Seq<char>) {
        match self {
            ClientKillFilter::ID(id) => ("ID"@, id@),
            ClientKillFilter::Type(k) => ("TYPE"@, k.spec_str()),
            ClientKillFilter::User(u) => ("USER"@, u@),
            ClientKillFilter::Addr(a) => ("ADDR"@, a@),
            ClientKillFilter::LAddr(a) => ("LADDR"@, a@),
            ClientKillFilter::SkipMe(b) => ("SKIPME"@, if b { "yes"@ } else { "no"@ }),
        }
    }

    pub fn to_str(&self) -> (r: (String, String))
        ensures
            (r.0@, r.1@) == self.spec_pair(),
    {
        match self {
            ClientKillFilter::ID(id) => ("ID".to_owned(), id.clone()),
            ClientKillFilter::Type(k) => ("TYPE".to_owned(), k.to_str()),
            ClientKillFilter::User(u) => ("USER".to_owned(), u.clone()),
            ClientKillFilter::Addr(a) => ("ADDR".to_owned(), a.clone()),
            ClientKillFilter::LAddr(a) => ("LADDR".to_owned(), a.clone()),
            ClientKillFilter::SkipMe(b) => {
                let v = if *b { "yes".to_owned() } else { "no".to_owned() };
                ("SKIPME".to_owned(), v)
            },
        }
    }
}

/// Which commands `CLIENT PAUSE` holds back.
#[derive(Debug, Clone, Copy, PartialEq, Eq, Structural)]
pub enum ClientPauseKind {
    Write,
    All,
}

impl ClientPauseKind {
    pub open spec fn spec_str(self) -> Seq<char> {
        match self {
            ClientPauseKind::Write => "WRITE"@,
            ClientPauseKind::All => "ALL"@,
        }
    }

    pub fn to_str(&self) -> (r: String)
        ensures
            r@ == self.spec_str(),
    {
        match self {
            ClientPauseKind::Write => "WRITE".to_owned(),
            ClientPauseKind::All => "ALL".to_owned(),
        }
    }
}

/// The reply mode that `CLIENT REPLY` sets.
#[derive(Debug, Clone, Copy, PartialEq, Eq, Structural)]
pub enum ClientReplyFlag {
    On,
    Off,
    Skip,
}

impl ClientReplyFlag {
    pub open spec fn spec_str(self) -> Seq<char> {
        match self {
            ClientReplyFlag::On => "ON"@,
            ClientReplyFlag::Off => "OFF"@,
            ClientReplyFlag::Skip => "SKIP"@,
        }
    }

    pub fn to_str(&self) -> (r: String)
        ensures
            r@ == self.spec_str(),
    {
        match self {
            ClientReplyFlag::On => "ON".to_owned(),
            ClientReplyFlag::Off => "OFF".to_owned(),
            ClientReplyFlag::Skip => "SKIP".to_owned(),
        }
    }
}

/// How an unblocked client sees its interrupted command end.
#[derive(Debug, Clone, Copy, PartialEq, Eq, Structural)]
pub enum ClientUnblockFlag {
    Timeout,
    Error,
}

impl ClientUnblockFlag {
    pub open spec fn spec_str(self) -> Seq<char> {
        match self {
            ClientUnblockFlag::Timeout => "TIMEOUT"@,
            ClientUnblockFlag::Error => "ERROR"@,
        }
    }

    pub fn to_str(&self) -> (r: String)
        ensures
            r@ == self.spec_str(),
    {
        match self {
            ClientUnblockFlag::Timeout => "TIMEOUT".to_owned(),
            ClientUnblockFlag::Error => "ERROR".to_owned(),
        }
    }
}

/// One live connection of the router.
#[derive(Debug, Clone)]
pub struct ServerEndpoint {
    pub host: String,
    pub port: u16,
}

impl View for ServerEndpoint {
    type V = (Seq<char>, u16);

    open spec fn view(&self) -> (Seq<char>, u16) {
        (self.host@, self.port)
    }
}

impl ServerEndpoint {
    pub fn new(host: &str, port: u16) -> (r: ServerEndpoint)
        ensures
            r@ == (host@, port),
    {
        ServerEndpoint { host: host.to_owned(), port }
    }

    /// A copy with the same host and port.
    pub fn duplicate(&self) -> (r: ServerEndpoint)
        ensures
            r@ == self@,
    {
        ServerEndpoint { host: self.host.clone(), port: self.port }
    }

    pub fn same_as(&self, other: &ServerEndpoint) -> (r: bool)
        ensures
            r == (self@ == other@),
    {
        self.port == other.port && self.host == other.host
    }
}

} // verus!
