//! The panel's answer on the serial line.
//!
//! After each command the panel answers with `ACK` or `NACK`. This module reads
//! the first bytes of what came back; sending the command and waiting for the
//! answer is the caller's part.

use vstd::prelude::*;

verus! {

/// Address of the panel on the serial line.
pub const ID: u8 = 1;

/// Ticks to wait for the panel's answer.
pub const READ_TIMEOUT: u32 = 64;

/// Bytes of the buffer that the answer is read into.
pub const READ_BUFFER_SIZE: usize = 32;

/// What the panel answered.
#[derive(Clone, Copy, Debug, PartialEq, Eq, Structural)]
pub enum Reply {
    /// The answer starts with `ACK`.
    Ack,
    /// The answer starts with `NACK`.
    Nack,
    /// Anything else, silence included.
    Other,
}

/// The panel refused a command.
#[derive(Clone, Copy, Debug, PartialEq, Eq, Structural)]
pub enum PanelError {
    /// The panel answered `NACK`.
    Nack,
}

/// The bytes of `ACK`.
pub open spec fn ack() -> Seq<u8> {
    seq![0x41u8, 0x43u8, 0x4bu8]
}

/// The bytes of `NACK`.
pub open spec fn nack() -> Seq<u8> {
    seq![0x4eu8, 0x41u8, 0x43u8, 0x4bu8]
}

/// What the answer `buffer` means.
pub open spec fn reply_of(buffer: Seq<u8>) -> Reply {
    if ack().is_prefix_of(buffer) {
        Reply::Ack
    } else if nack().is_prefix_of(buffer) {
        Reply::Nack
    } else {
        Reply::Other
    }
}

/// Reads the panel's answer.
pub fn classify(buffer: &[u8]) -> (reply: Reply)
    ensures
        reply == reply_of(buffer@),
{
    if buffer.len() >= 3 && buffer[0] == 0x41 && buffer[1] == 0x43 && buffer[2] == 0x4b {
        assert(buffer@.subrange(0, 3) =~= ack());
        Reply::Ack
    } else if buffer.len() >= 4 && buffer[0] == 0x4e && buffer[1] == 0x41 && buffer[2] == 0x43
        && buffer[3] == 0x4b {
        assert(buffer@.subrange(0, 4) =~= nack());
        assert(!ack().is_prefix_of(buffer@)) by {
            if ack().is_prefix_of(buffer@) {
                assert(buffer@.subrange(0, 3)[0] == ack()[0]);
            }
        }
        Reply::Nack
    } else {
        assert(!ack().is_prefix_of(buffer@)) by {
            if ack().is_prefix_of(buffer@) {
                let head = buffer@.subrange(0, 3);
                assert(head[0] == ack()[0] && head[1] == ack()[1] && head[2] == ack()[2]);
            }
        }
        assert(!nack().is_prefix_of(buffer@)) by {
            if nack().is_prefix_of(buffer@) {
                let head = buffer@.subrange(0, 4);
                assert(head[0] == nack()[0] && head[1] == nack()[1] && head[2] == nack()[2]
                    && head[3] == nack()[3]);
            }
        }
        Reply::Other
    }
}

/// Whether the panel took the command: only an answer that starts with `NACK`
/// is a refusal.
pub fn check_reply(buffer: &[u8]) -> (result: Result<(), PanelError>)
    ensures
        result == if reply_of(buffer@) == Reply::Nack {
            Err::<(), PanelError>(PanelError::Nack)
        } else {
            Ok::<(), PanelError>(())
        },
{
    match classify(buffer) {
        Reply::Nack => Err(PanelError::Nack),
        _ => Ok(()),
    }
}

} // verus!
