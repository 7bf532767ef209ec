use vstd::prelude::*;

verus! {

/// What can go wrong while resolving entities or handling an interaction.
#[derive(Clone, Copy, Debug, PartialEq, Eq, Structural)]
pub enum Error {
    /// The entity is neither cached nor known to the remote source.
    NotFound,
    /// The remote call itself failed.
    RemoteError,
    /// An interaction-bearing event carried no guild id.
    MissingGuildContext,
    /// The external renderer failed or exited with a non-zero status.
    RenderError,
    /// Writing to the persistence sink failed.
    PersistenceError,
}

impl Error {
    /// Short human-readable description; stands in for `Display`.
    pub fn message(&self) -> (text: &'static str)
        ensures
            text@ == match *self {
                Error::NotFound => "entity not found"@,
                Error::RemoteError => "remote call failed"@,
                Error::MissingGuildContext => "event has no guild context"@,
                Error::RenderError => "graph rendering failed"@,
                Error::PersistenceError => "persistence sink failed"@,
            },
    {
        match self {
            Error::NotFound => "entity not found",
            Error::RemoteError => "remote call failed",
            Error::MissingGuildContext => "event has no guild context",
            Error::RenderError => "graph rendering failed",
            Error::PersistenceError => "persistence sink failed",
        }
    }
}

} // verus!
