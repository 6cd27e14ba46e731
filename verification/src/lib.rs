//! A guild-scoped playback session coordinator: each guild owns an isolated
//! session holding a playback state machine, an ordered track queue, a loop
//! policy and per-user search selections.  Sessions live in a concurrent
//! store and advance through user commands and track-completion events.
use vstd::prelude::*;

pub mod audio_link;
pub mod codec;
pub mod command;
pub mod context_data;
pub mod youtube;

verus! {

/// The errors a command can report.  None of them is fatal, and each contract
/// below states exactly when its error is returned and that the session is
/// left unchanged when it is.
#[derive(Clone, Copy, Debug, PartialEq, Eq, Structural)]
pub enum Error {
    /// The external lookup failed or returned nothing usable.
    ResolutionFailure,
    /// The voice transport could not join the caller's channel.
    JoinFailure,
    /// The caller is not in a voice channel.
    NotInVoiceChannel,
    /// A selection index outside the pending candidate list.
    SelectionOutOfRange,
    /// A selection without a pending candidate list.
    NoPendingSelection,
    /// A queue token that does not decode.
    ImportDecodeFailure,
    /// An imported track reference that failed to resolve.
    ImportResolutionFailure,
}

} // verus!
