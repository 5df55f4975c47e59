use vstd::prelude::*;

verus! {

/// The largest request payload held in memory.
pub const MAX_PAYLOAD_BYTES: usize = 262144;

/// Why a payload was refused.
#[derive(Debug, Clone, Copy, PartialEq, Eq, Structural)]
pub enum PayloadError {
    /// The payload grew past `MAX_PAYLOAD_BYTES`.
    Overflow,
}

/// The bytes of a request payload as its chunks arrive, kept within
/// `MAX_PAYLOAD_BYTES`.
pub struct PayloadBuffer {
    bytes: Vec<u8>,
}

impl View for PayloadBuffer {
    type V = Seq<u8>;

    closed spec fn view(&self) -> Seq<u8> {
        self.bytes@
    }
}

impl PayloadBuffer {
    pub fn new() -> (r: Self)
        ensures
            r@ == Seq::<u8>::empty(),
    {
        PayloadBuffer { bytes: Vec::new() }
    }

    /// Appends a chunk, unless the payload would then exceed
    /// `MAX_PAYLOAD_BYTES`: then it is refused and nothing changes.
    pub fn push(&mut self, chunk: &[u8]) -> (r: Result<(), PayloadError>)
        ensures
            old(self)@.len() + chunk@.len() > MAX_PAYLOAD_BYTES ==> r == Err::<(), PayloadError>(
                PayloadError::Overflow,
            ) && final(self)@ == old(self)@,
            old(self)@.len() + chunk@.len() <= MAX_PAYLOAD_BYTES ==> r is Ok && final(self)@ == old(self)@
                + chunk@,
    {
        if self.bytes.len() > MAX_PAYLOAD_BYTES || chunk.len() > MAX_PAYLOAD_BYTES - self.bytes.len() {
            return Err(PayloadError::Overflow);
        }
        let mut i: usize = 0;
        while i < chunk.len()
            invariant
                i <= chunk@.len(),
                self@ == old(self)@ + chunk@.take(i as int),
            decreases chunk.len() - i,
        {
            self.bytes.push(chunk[i]);
            assert(self@ =~= old(self)@ + chunk@.take(i + 1));
            i = i + 1;
        }
        assert(chunk@.take(i as int) =~= chunk@);
        Ok(())
    }

    /// The bytes received so far.
    pub fn as_slice(&self) -> (r: &[u8])
        ensures
            r@ == self@,
    {
        self.bytes.as_slice()
    }
}

} // verus!
