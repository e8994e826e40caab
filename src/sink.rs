use vstd::prelude::*;

use crate::cbor::push_all;

verus! {

/// A failed write to a sink.
#[derive(Clone, Copy, Debug, PartialEq, Eq)]
pub enum EncodeError {
    /// The sink has no room left for the bytes written.
    EndOfBuffer,
}

/// An append-only byte sink of fixed capacity. A write that does not fit fails and leaves the
/// sink as it was.
pub struct Sink {
    bytes: Vec<u8>,
    capacity: usize,
}

impl Sink {
    /// The bytes written so far.
    pub closed spec fn contents(&self) -> Seq<u8> {
        self.bytes@
    }

    /// The most bytes the sink holds.
    pub closed spec fn capacity(&self) -> nat {
        self.capacity as nat
    }

    /// An empty sink that holds at most `capacity` bytes.
    pub fn new(capacity: usize) -> (r: Sink)
        ensures
            r.contents() == Seq::<u8>::empty(),
            r.capacity() == capacity,
    {
        Sink { bytes: Vec::new(), capacity }
    }

    /// Appends `data`, or fails and writes nothing when it does not fit.
    pub fn write_all(&mut self, data: &Vec<u8>) -> (r: Result<(), EncodeError>)
        ensures
            final(self).capacity() == old(self).capacity(),
            r is Ok <==> old(self).contents().len() + data@.len() <= old(self).capacity(),
            r is Ok ==> final(self).contents() == old(self).contents() + data@,
            r is Err ==> final(self).contents() == old(self).contents(),
    {
        if self.bytes.len() > self.capacity || data.len() > self.capacity - self.bytes.len() {
            return Err(EncodeError::EndOfBuffer);
        }
        push_all(&mut self.bytes, data);
        Ok(())
    }

    /// The bytes written so far.
    pub fn bytes(&self) -> (r: &Vec<u8>)
        ensures
            r@ == self.contents(),
    {
        &self.bytes
    }
}

} // verus!
