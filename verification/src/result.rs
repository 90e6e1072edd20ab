//! Bridger errors.
use vstd::prelude::*;
use vstd::string::to_string_from_display_ensures;

verus! {

#[verifier::external_type_specification]
#[verifier::external_body]
pub struct ExIoError(std::io::Error);

#[verifier::external_type_specification]
#[verifier::external_body]
pub struct ExTomlDeError(toml::de::Error);

#[verifier::external_type_specification]
#[verifier::external_body]
pub struct ExTomlSerError(toml::ser::Error);

#[verifier::external_type_specification]
#[verifier::external_body]
pub struct ExEtcError(etc::Error);

#[verifier::external_type_specification]
#[verifier::external_body]
pub struct ExWeb3Error(web3::Error);

/// The custom bridger error: a message of the bridger itself.
#[derive(Debug)]
pub struct Bridger(pub String);

impl Bridger {
    /// A bridger error with the given message.
    pub fn new(message: String) -> (b: Bridger)
        ensures
            b.0 == message,
    {
        Bridger(message)
    }

    /// The message this error carries.
    pub open spec fn message(&self) -> Seq<char> {
        self.0@
    }

    /// What the error displays: its message, as it is.
    pub fn to_display_string(&self) -> (s: String)
        ensures
            s@ == self.message(),
    {
        self.0.clone()
    }
}

/// Bridger error: one variant per source, each holding the source's
/// displayed message.
#[derive(Debug)]
pub enum BridgerError {
    Io(String),
    Bridger(String),
    DeToml(String),
    SerToml(String),
    Etc(String),
    Web3(String),
}

impl BridgerError {
    /// The message held by the error, whatever its source.
    pub open spec fn message(&self) -> Seq<char> {
        match self {
            BridgerError::Io(m) => m@,
            BridgerError::Bridger(m) => m@,
            BridgerError::DeToml(m) => m@,
            BridgerError::SerToml(m) => m@,
            BridgerError::Etc(m) => m@,
            BridgerError::Web3(m) => m@,
        }
    }

    /// What the error displays: the message it holds.
    pub fn to_display_string(&self) -> (s: String)
        ensures
            s@ == self.message(),
    {
        match self {
            BridgerError::Io(m) => m.clone(),
            BridgerError::Bridger(m) => m.clone(),
            BridgerError::DeToml(m) => m.clone(),
            BridgerError::SerToml(m) => m.clone(),
            BridgerError::Etc(m) => m.clone(),
            BridgerError::Web3(m) => m.clone(),
        }
    }

    /// An I/O error, holding what it displays.
    pub fn from_io(e: std::io::Error) -> (r: BridgerError)
        ensures
            r matches BridgerError::Io(m) && to_string_from_display_ensures::<std::io::Error>(&e, m),
    {
        BridgerError::Io(e.to_string())
    }

    /// A TOML decoding error, holding what it displays.
    pub fn from_de_toml(e: toml::de::Error) -> (r: BridgerError)
        ensures
            r matches BridgerError::DeToml(m) && to_string_from_display_ensures::<toml::de::Error>(&e, m),
    {
        BridgerError::DeToml(e.to_string())
    }

    /// A TOML encoding error, holding what it displays.
    pub fn from_ser_toml(e: toml::ser::Error) -> (r: BridgerError)
        ensures
            r matches BridgerError::SerToml(m) && to_string_from_display_ensures::<toml::ser::Error>(&e, m),
    {
        BridgerError::SerToml(e.to_string())
    }

    /// An error of the `etc` file store, holding what it displays.
    pub fn from_etc(e: etc::Error) -> (r: BridgerError)
        ensures
            r matches BridgerError::Etc(m) && to_string_from_display_ensures::<etc::Error>(&e, m),
    {
        BridgerError::Etc(e.to_string())
    }

    /// A web3 error, holding what it displays.
    pub fn from_web3(e: web3::Error) -> (r: BridgerError)
        ensures
            r matches BridgerError::Web3(m) && to_string_from_display_ensures::<web3::Error>(&e, m),
    {
        BridgerError::Web3(e.to_string())
    }
}

impl From<Bridger> for BridgerError {
    /// A bridger error keeps the message that it displays.
    fn from(e: Bridger) -> (r: BridgerError) {
        BridgerError::Bridger(e.0)
    }
}

impl vstd::std_specs::convert::FromSpecImpl<Bridger> for BridgerError {
    open spec fn obeys_from_spec() -> bool {
        true
    }

    open spec fn from_spec(e: Bridger) -> BridgerError {
        BridgerError::Bridger(e.0)
    }
}

} // verus!
