use vstd::prelude::*;

verus! {

/// Why a session ended in failure.
#[derive(Clone, Copy, Debug, PartialEq, Eq, Structural)]
pub enum SessionError {
    /// The connection to the target could not be opened.
    Connection,
    /// The first inbound message was not the handshake start, or was unreadable.
    Handshake,
    /// An inbound payload did not match the protocol grammar.
    Decode,
    /// The peer sent an explicit error message.
    Protocol,
    /// Sending, receiving or closing on the connection failed.
    Io,
}

/// The terminal classification of one session, produced exactly once.
#[derive(Clone, Copy, Debug, PartialEq, Eq, Structural)]
pub enum Outcome<T> {
    Success(T),
    Timeout,
    Error(SessionError),
}

/// A payload that does not follow the wire grammar, kept as it was received.
#[derive(Clone, Debug)]
pub struct DecodeError {
    pub payload: Vec<u8>,
}

/// Copies `bytes` into a fresh vector.
pub fn bytes_to_vec(bytes: &[u8]) -> (r: Vec<u8>)
    ensures
        r@ == bytes@,
{
    let mut r: Vec<u8> = Vec::new();
    append_bytes(&mut r, bytes);
    r
}

/// Appends `bytes` to `out`.
pub fn append_bytes(out: &mut Vec<u8>, bytes: &[u8])
    ensures
        final(out)@ == old(out)@ + bytes@,
{
    let mut i: usize = 0;
    while i < bytes.len()
        invariant
            i <= bytes@.len(),
            out@ == old(out)@ + bytes@.subrange(0, i as int),
        decreases bytes.len() - i,
    {
        out.push(bytes[i]);
        i = i + 1;
        assert(out@ =~= old(out)@ + bytes@.subrange(0, i as int));
    }
    assert(bytes@.subrange(0, bytes@.len() as int) =~= bytes@);
}

} // verus!
