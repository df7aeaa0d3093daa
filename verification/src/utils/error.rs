use vstd::prelude::*;
use vstd::string::*;

verus! {

/// Everything that can go wrong while painting a wallpaper. Each variant
/// carries the text of the failure it reports.
#[derive(Debug)]
pub enum WallpaperError {
    IoError(String),
    Wayland(String),
    WaylandConnect(String),
    Image(String),
    Memory(String),
    Serialization(String),
    InvalidMonitor(String),
    InvalidScaling(String),
    WaylandProtocol(String),
}

pub type WallpaperResult<T> = Result<T, WallpaperError>;

impl WallpaperError {
    /// The text carried by the error, whatever its variant.
    pub open spec fn detail(self) -> Seq<char> {
        match self {
            WallpaperError::IoError(s) => s@,
            WallpaperError::Wayland(s) => s@,
            WallpaperError::WaylandConnect(s) => s@,
            WallpaperError::Image(s) => s@,
            WallpaperError::Memory(s) => s@,
            WallpaperError::Serialization(s) => s@,
            WallpaperError::InvalidMonitor(s) => s@,
            WallpaperError::InvalidScaling(s) => s@,
            WallpaperError::WaylandProtocol(s) => s@,
        }
    }

    /// The fixed words that introduce an error of this variant.
    pub open spec fn prefix(self) -> Seq<char> {
        match self {
            WallpaperError::IoError(_) => "IO error: "@,
            WallpaperError::Wayland(_) => "Wayland error: "@,
            WallpaperError::WaylandConnect(_) => "Wayland connect error: "@,
            WallpaperError::Image(_) => "Image error: "@,
            WallpaperError::Memory(_) => "Memory error: "@,
            WallpaperError::Serialization(_) => "Serialization error: "@,
            WallpaperError::InvalidMonitor(_) => "Invalid monitor: "@,
            WallpaperError::InvalidScaling(_) => "Invalid scaling mode: "@,
            WallpaperError::WaylandProtocol(_) => "Wayland protocol error: "@,
        }
    }

    /// Whether the error ends the session: a failure to connect and a
    /// violation of the protocol do. Any other error ends only the call
    /// that met it.
    pub open spec fn fatal(self) -> bool {
        self is Wayland || self is WaylandConnect || self is WaylandProtocol
    }

    /// Whether the error ends the session.
    pub fn is_fatal(&self) -> (r: bool)
        ensures
            r == self.fatal(),
    {
        match self {
            WallpaperError::Wayland(_) => true,
            WallpaperError::WaylandConnect(_) => true,
            WallpaperError::WaylandProtocol(_) => true,
            _ => false,
        }
    }

    /// Renders the error for a person: the variant's prefix, then its detail.
    pub fn message(&self) -> (text: String)
        ensures
            text@ == self.prefix() + self.detail(),
    {
        match self {
            WallpaperError::IoError(s) => String::from_str("IO error: ").concat(s.as_str()),
            WallpaperError::Wayland(s) => String::from_str("Wayland error: ").concat(s.as_str()),
            WallpaperError::WaylandConnect(s) => String::from_str("Wayland connect error: ").concat(
                s.as_str(),
            ),
            WallpaperError::Image(s) => String::from_str("Image error: ").concat(s.as_str()),
            WallpaperError::Memory(s) => String::from_str("Memory error: ").concat(s.as_str()),
            WallpaperError::Serialization(s) => String::from_str("Serialization error: ").concat(
                s.as_str(),
            ),
            WallpaperError::InvalidMonitor(s) => String::from_str("Invalid monitor: ").concat(
                s.as_str(),
            ),
            WallpaperError::InvalidScaling(s) => String::from_str("Invalid scaling mode: ").concat(
                s.as_str(),
            ),
            WallpaperError::WaylandProtocol(s) => String::from_str(
                "Wayland protocol error: ",
            ).concat(s.as_str()),
        }
    }
}

/// `memfd::Error`, the failure to create or seal a memory file.
#[verifier::external_type_specification]
#[verifier::external_body]
pub struct ExMemfdError(memfd::Error);

/// Whether `text` is one of the three messages of `memfd::Error`.
pub open spec fn is_memfd_message(text: Seq<char>) -> bool {
    ||| text == "cannot create a memfd"@
    ||| text == "cannot add seals to the memfd"@
    ||| text == "cannot read seals for a memfd"@
}

/// `to_string` of `memfd::Error`, which goes through its `Display`: one of
/// three fixed messages, by the variant of the error.
#[verifier::external_body]
fn memfd_message(error: &memfd::Error) -> (text: String)
    ensures
        is_memfd_message(text@),
{
    error.to_string()
}

impl From<memfd::Error> for WallpaperError {
    /// A failure to create or seal a memory file is a `Memory` error with
    /// the message of the failure.
    fn from(error: memfd::Error) -> (e: WallpaperError)
        ensures
            e matches WallpaperError::Memory(text) && is_memfd_message(text@),
    {
        WallpaperError::Memory(memfd_message(&error))
    }
}

impl vstd::std_specs::convert::FromSpecImpl<memfd::Error> for WallpaperError {
    open spec fn obeys_from_spec() -> bool {
        false
    }

    open spec fn from_spec(error: memfd::Error) -> WallpaperError {
        arbitrary()
    }
}

} // verus!
